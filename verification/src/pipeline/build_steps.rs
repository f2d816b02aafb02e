//! The decisions the build steps take: which export paths may be cleared, which files are
//! assets, which files must be generated again, and the name a generated module gets.

use vstd::prelude::*;
use vstd::string::{StringSliceAdditionalSpecFns, StringExecFns};

verus! {

/// The byte `.`.
pub const DOT: u8 = 46;

/// The byte `/`.
pub const SLASH: u8 = 47;

/// How many bytes of `./` prefixes `s` starts with, all of them, repeated.
pub open spec fn leading_dot_slashes(s: Seq<u8>) -> int
    decreases s.len(),
{
    if s.len() >= 2 && s[0] == DOT && s[1] == SLASH {
        2 + leading_dot_slashes(s.subrange(2, s.len() as int))
    } else {
        0
    }
}

/// How many `/` bytes `s` ends with.
pub open spec fn trailing_slashes(s: Seq<u8>) -> int
    decreases s.len(),
{
    if s.len() >= 1 && s.last() == SLASH {
        1 + trailing_slashes(s.drop_last())
    } else {
        0
    }
}

/// `s` without its leading `./` prefixes and then without its trailing slashes.
pub open spec fn normalized_path(s: Seq<u8>) -> Seq<u8> {
    let t = s.subrange(leading_dot_slashes(s), s.len() as int);
    t.subrange(0, t.len() - trailing_slashes(t))
}

/// What `leading_dot_slashes` and `trailing_slashes` count stays within the sequence.
pub proof fn lemma_strip_bounds(s: Seq<u8>)
    ensures
        0 <= leading_dot_slashes(s) <= s.len(),
        0 <= trailing_slashes(s) <= s.len(),
    decreases s.len(),
{
    if s.len() >= 2 && s[0] == DOT && s[1] == SLASH {
        lemma_strip_bounds(s.subrange(2, s.len() as int));
    }
    if s.len() >= 1 && s.last() == SLASH {
        lemma_strip_bounds(s.drop_last());
    }
}

/// The range of `bytes` that is its normalized form: leading `./` prefixes and then
/// trailing slashes removed.
pub fn normalized_range(bytes: &[u8]) -> (r: (usize, usize))
    ensures
        r.0 <= r.1 <= bytes@.len(),
        r.0 == leading_dot_slashes(bytes@),
        bytes@.subrange(r.0 as int, r.1 as int) == normalized_path(bytes@),
{
    let ghost s = bytes@;
    let n = bytes.len();
    let mut start: usize = 0;
    proof {
        assert(s.subrange(0, n as int) =~= s);
    }
    while start < n && n - start >= 2 && bytes[start] == DOT && bytes[start + 1] == SLASH
        invariant
            start <= n,
            n == s.len(),
            s == bytes@,
            leading_dot_slashes(s) == start + leading_dot_slashes(s.subrange(start as int, n as int)),
        decreases n - start,
    {
        proof {
            let sub = s.subrange(start as int, n as int);
            assert(sub.subrange(2, sub.len() as int) =~= s.subrange(start + 2, n as int));
        }
        start += 2;
    }
    let ghost t = s.subrange(start as int, n as int);
    assert(leading_dot_slashes(t) == 0);
    let mut end: usize = n;
    proof {
        assert(t.subrange(0, (n - start) as int) =~= t);
    }
    while end > start && bytes[end - 1] == SLASH
        invariant
            start <= end <= n,
            n == s.len(),
            s == bytes@,
            t == s.subrange(start as int, n as int),
            trailing_slashes(t) == (n - end) + trailing_slashes(t.subrange(0, end - start)),
        decreases end,
    {
        proof {
            let sub = t.subrange(0, end - start);
            assert(sub.drop_last() =~= t.subrange(0, end - 1 - start));
        }
        end -= 1;
    }
    proof {
        assert(trailing_slashes(t.subrange(0, end - start)) == 0);
        assert(s.subrange(start as int, end as int) =~= t.subrange(0, t.len() - trailing_slashes(t)));
    }
    (start, end)
}

/// Whether `a[start..end]` is `lit`.
pub fn range_equals(a: &[u8], start: usize, end: usize, lit: &[u8]) -> (r: bool)
    requires
        start <= end <= a@.len(),
    ensures
        r == (a@.subrange(start as int, end as int) == lit@),
{
    if end - start != lit.len() {
        return false;
    }
    let mut i: usize = 0;
    while i < lit.len()
        invariant
            i <= lit@.len(),
            end - start == lit@.len(),
            start <= end <= a@.len(),
            forall|k: int| 0 <= k < i ==> a@[start + k] == lit@[k],
        decreases lit@.len() - i,
    {
        if a[start + i] != lit[i] {
            assert(a@.subrange(start as int, end as int)[i as int] != lit@[i as int]);
            return false;
        }
        i += 1;
    }
    assert(a@.subrange(start as int, end as int) =~= lit@);
    true
}

/// Whether `s` holds `..` somewhere.
pub open spec fn has_parent_traversal(s: Seq<u8>) -> bool {
    exists|i: int| 0 <= i < s.len() - 1 && s[i] == DOT && #[trigger] s[i + 1] == DOT
}

/// The top-level paths an export directory may be but is never cleared as: `.`, `src`,
/// `/`, `target`, `cargo`, `.git` and `.cargo`.
pub open spec fn kept_paths() -> Seq<Seq<u8>> {
    seq![
        seq![46u8],
        seq![115u8, 114, 99],
        seq![47u8],
        seq![116u8, 97, 114, 103, 101, 116],
        seq![99u8, 97, 114, 103, 111],
        seq![46u8, 103, 105, 116],
        seq![46u8, 99, 97, 114, 103, 111],
    ]
}

/// What clearing an export directory before a build does.
#[derive(Debug, Clone, Copy, PartialEq, Eq, Structural)]
pub enum ExportClear {
    /// The path is empty: refused.
    EmptyPath,
    /// The path goes up a directory (`..`): refused.
    ParentTraversal,
    /// The path is absolute: refused.
    AbsolutePath,
    /// The path is a top-level directory: kept, its files are overwritten in place.
    KeepTopLevel,
    /// The directory is cleared.
    Clear,
}

/// What clearing the export directory `s` (its bytes) does; `is_absolute` says whether
/// the platform reads it as an absolute path.
pub open spec fn export_clear(s: Seq<u8>, is_absolute: bool) -> ExportClear {
    if s.len() == 0 {
        ExportClear::EmptyPath
    } else if has_parent_traversal(s) {
        ExportClear::ParentTraversal
    } else if is_absolute {
        ExportClear::AbsolutePath
    } else if kept_paths().contains(normalized_path(s)) {
        ExportClear::KeepTopLevel
    } else {
        ExportClear::Clear
    }
}

/// Whether `bytes` holds `..` somewhere.
fn find_parent_traversal(bytes: &[u8]) -> (r: bool)
    ensures
        r == has_parent_traversal(bytes@),
{
    let mut i: usize = 0;
    while i < bytes.len() && bytes.len() - i >= 2
        invariant
            forall|k: int|
                0 <= k < i && k < bytes@.len() - 1 ==> !(bytes@[k] == DOT && #[trigger] bytes@[k + 1]
                    == DOT),
        decreases bytes@.len() - i,
    {
        if bytes[i] == DOT && bytes[i + 1] == DOT {
            return true;
        }
        i += 1;
    }
    assert(!has_parent_traversal(bytes@)) by {
        if has_parent_traversal(bytes@) {
            let k = choose|k: int| 0 <= k < bytes@.len() - 1 && bytes@[k] == DOT && #[trigger] bytes@[k + 1] == DOT;
            assert(!(bytes@[k] == DOT && bytes@[k + 1] == DOT));
        }
    }
    false
}

/// Decides what clearing the export directory `export_path` does before a build: an
/// empty path, one that goes up a directory and an absolute one (as the platform reads
/// it, `is_absolute`) are refused; a top-level directory is kept; any other is cleared.
pub fn export_clear_decision(export_path: &str, is_absolute: bool) -> (r: ExportClear)
    ensures
        r == export_clear(export_path.spec_bytes(), is_absolute),
{
    let bytes = export_path.as_bytes();
    if bytes.len() == 0 {
        return ExportClear::EmptyPath;
    }
    if find_parent_traversal(bytes) {
        return ExportClear::ParentTraversal;
    }
    if is_absolute {
        return ExportClear::AbsolutePath;
    }
    let (start, end) = normalized_range(bytes);
    let dot: [u8; 1] = [46];
    let src: [u8; 3] = [115, 114, 99];
    let root: [u8; 1] = [47];
    let target: [u8; 6] = [116, 97, 114, 103, 101, 116];
    let cargo: [u8; 5] = [99, 97, 114, 103, 111];
    let git: [u8; 4] = [46, 103, 105, 116];
    let dot_cargo: [u8; 6] = [46, 99, 97, 114, 103, 111];
    let ghost ks = kept_paths();
    assert(dot@ =~= ks[0]);
    assert(src@ =~= ks[1]);
    assert(root@ =~= ks[2]);
    assert(target@ =~= ks[3]);
    assert(cargo@ =~= ks[4]);
    assert(git@ =~= ks[5]);
    assert(dot_cargo@ =~= ks[6]);
    let kept = range_equals(bytes, start, end, &dot) || range_equals(bytes, start, end, &src)
        || range_equals(bytes, start, end, &root) || range_equals(bytes, start, end, &target)
        || range_equals(bytes, start, end, &cargo) || range_equals(bytes, start, end, &git)
        || range_equals(bytes, start, end, &dot_cargo);
    proof {
        let n = normalized_path(bytes@);
        if kept {
            assert(ks.contains(n)) by {
                if n == ks[0] {
                } else if n == ks[1] {
                } else if n == ks[2] {
                } else if n == ks[3] {
                } else if n == ks[4] {
                } else if n == ks[5] {
                } else {
                    assert(n == ks[6]);
                }
            }
        } else {
            assert(!ks.contains(n)) by {
                if ks.contains(n) {
                    let j = choose|j: int| 0 <= j < ks.len() && ks[j] == n;
                    assert(0 <= j < 7);
                }
            }
        }
    }
    if kept {
        ExportClear::KeepTopLevel
    } else {
        ExportClear::Clear
    }
}

/// `b` lowered to lowercase if it is an ASCII uppercase letter.
pub open spec fn ascii_lower(b: u8) -> u8 {
    if 65 <= b <= 90 {
        (b + 32) as u8
    } else {
        b
    }
}

/// Whether `s` ends with `suffix`, ignoring the case of ASCII letters in `s`.
pub open spec fn ends_with_lowered(s: Seq<u8>, suffix: Seq<u8>) -> bool {
    &&& s.len() >= suffix.len()
    &&& forall|j: int|
        0 <= j < suffix.len() ==> #[trigger] ascii_lower(s[s.len() - suffix.len() + j]) == suffix[j]
}

/// The extensions of image files: `.png`, `.jpg`, `.jpeg`, `.bmp`, `.gif`, `.tga`.
pub open spec fn asset_extensions() -> Seq<Seq<u8>> {
    seq![
        seq![46u8, 112, 110, 103],
        seq![46u8, 106, 112, 103],
        seq![46u8, 106, 112, 101, 103],
        seq![46u8, 98, 109, 112],
        seq![46u8, 103, 105, 102],
        seq![46u8, 116, 103, 97],
    ]
}

/// Whether `bytes` ends with the lowercase `suffix`, ignoring case.
fn ends_with_ignoring_case(bytes: &[u8], suffix: &[u8]) -> (r: bool)
    ensures
        r == ends_with_lowered(bytes@, suffix@),
{
    if bytes.len() < suffix.len() {
        return false;
    }
    let n = bytes.len();
    let offset = n - suffix.len();
    let mut j: usize = 0;
    while j < suffix.len()
        invariant
            n == bytes@.len(),
            offset == bytes@.len() - suffix@.len(),
            offset + suffix@.len() == bytes@.len(),
            j <= suffix@.len(),
            forall|k: int| 0 <= k < j ==> #[trigger] ascii_lower(bytes@[offset + k]) == suffix@[k],
        decreases suffix@.len() - j,
    {
        let b = bytes[offset + j];
        let lowered = if 65 <= b && b <= 90 {
            b + 32
        } else {
            b
        };
        assert(lowered == ascii_lower(bytes@[offset + j]));
        if lowered != suffix[j] {
            assert(ascii_lower(bytes@[bytes@.len() - suffix@.len() + j]) != suffix@[j as int]);
            return false;
        }
        j += 1;
    }
    true
}

/// Whether `file_name` names an image asset: it ends with `.png`, `.jpg`, `.jpeg`,
/// `.bmp`, `.gif` or `.tga`, in any case. Only ASCII letters are lowered: no other
/// character lowers to the letters of these extensions, so the answer is the one a full
/// lowercase conversion gives.
pub fn is_asset_file(file_name: &str) -> (r: bool)
    ensures
        r == exists|i: int|
            0 <= i < asset_extensions().len() && ends_with_lowered(
                file_name.spec_bytes(),
                #[trigger] asset_extensions()[i],
            ),
{
    let bytes = file_name.as_bytes();
    let png = ends_with_ignoring_case(bytes, &[46u8, 112, 110, 103]);
    let jpg = ends_with_ignoring_case(bytes, &[46u8, 106, 112, 103]);
    let jpeg = ends_with_ignoring_case(bytes, &[46u8, 106, 112, 101, 103]);
    let bmp = ends_with_ignoring_case(bytes, &[46u8, 98, 109, 112]);
    let gif = ends_with_ignoring_case(bytes, &[46u8, 103, 105, 102]);
    let tga = ends_with_ignoring_case(bytes, &[46u8, 116, 103, 97]);
    let r = png || jpg || jpeg || bmp || gif || tga;
    proof {
        let e = asset_extensions();
        let s = bytes@;
        if r {
            if png {
                assert(ends_with_lowered(s, e[0]));
            } else if jpg {
                assert(ends_with_lowered(s, e[1]));
            } else if jpeg {
                assert(ends_with_lowered(s, e[2]));
            } else if bmp {
                assert(ends_with_lowered(s, e[3]));
            } else if gif {
                assert(ends_with_lowered(s, e[4]));
            } else {
                assert(ends_with_lowered(s, e[5]));
            }
        } else {
            assert forall|i: int| 0 <= i < e.len() implies !ends_with_lowered(s, #[trigger] e[i]) by {
                assert(0 <= i < 6);
            }
        }
    }
    r
}

/// The index just after the last `/` of `s`, or 0 without one.
pub open spec fn after_last_slash(s: Seq<u8>) -> int
    decreases s.len(),
{
    if s.len() == 0 {
        0
    } else if s.last() == SLASH {
        s.len() as int
    } else {
        after_last_slash(s.drop_last())
    }
}

/// The index of the first `.` of `s` at or after `from`, or the length without one.
pub open spec fn first_dot_from(s: Seq<u8>, from: int) -> int
    decreases s.len() - from,
{
    if from >= s.len() {
        s.len() as int
    } else if s[from] == DOT {
        from
    } else {
        first_dot_from(s, from + 1)
    }
}

/// The range of `path` that is the name of the file it ends with, up to its first dot:
/// the part after the last `/`, cut at its first `.`.
pub fn stem_range(path: &str) -> (r: (usize, usize))
    ensures
        r.0 == after_last_slash(path.spec_bytes()),
        r.1 == first_dot_from(path.spec_bytes(), r.0 as int),
        r.0 <= r.1 <= path.spec_bytes().len(),
{
    let bytes = path.as_bytes();
    let ghost s = bytes@;
    let mut i: usize = bytes.len();
    proof {
        assert(s.subrange(0, s.len() as int) =~= s);
    }
    while i > 0 && bytes[i - 1] != SLASH
        invariant
            i <= s.len(),
            s == bytes@,
            after_last_slash(s) == after_last_slash(s.subrange(0, i as int)),
        decreases i,
    {
        proof {
            assert(s.subrange(0, i as int).drop_last() =~= s.subrange(0, i - 1));
        }
        i -= 1;
    }
    proof {
        assert(s.subrange(0, s.len() as int) =~= s);
    }
    let start = i;
    let mut j: usize = start;
    while j < bytes.len() && bytes[j] != DOT
        invariant
            start <= j <= s.len(),
            s == bytes@,
            first_dot_from(s, start as int) == first_dot_from(s, j as int),
        decreases s.len() - j,
    {
        j += 1;
    }
    (start, j)
}

/// Whether a source file must be generated again: always when reprocessing is forced,
/// when its time stamp cannot be read or when no stamp is stored for it; otherwise when
/// it changed after the stored stamp.
pub fn should_regenerate(force_reprocess: bool, current: Option<u64>, stored: Option<u64>) -> (r:
    bool)
    ensures
        r == (force_reprocess || current is None || stored is None || current->Some_0
            > stored->Some_0),
{
    if force_reprocess {
        return true;
    }
    match current {
        Some(current_timestamp) => match stored {
            Some(stored_timestamp) => current_timestamp > stored_timestamp,
            None => true,
        },
        None => true,
    }
}

/// The lines `before + m + after` for each module name `m` of `modules`, in order.
pub open spec fn module_lines(modules: Seq<String>, before: Seq<char>, after: Seq<char>) -> Seq<char>
    decreases modules.len(),
{
    if modules.len() == 0 {
        seq![]
    } else {
        module_lines(modules.drop_last(), before, after) + before + modules.last()@ + after
    }
}

/// The text of the `mod.rs` of an export directory: a header comment and a blank line,
/// a `pub mod` line per module, a blank line, and a `pub use` line per module.
pub open spec fn mod_file_chars(modules: Seq<String>) -> Seq<char> {
    "// Auto-generated mod.rs - exports all generated modules\n"@ + "\n"@ + module_lines(
        modules,
        "pub mod "@,
        ";\n"@,
    ) + "\n"@ + module_lines(modules, "pub use "@, "::*;\n"@)
}

/// Appends `before + m + after` for each module name `m`.
fn append_module_lines(out: &mut String, modules: &[String], before: &str, after: &str)
    ensures
        final(out)@ == old(out)@ + module_lines(modules@, before@, after@),
{
    let mut i: usize = 0;
    while i < modules.len()
        invariant
            i <= modules@.len(),
            out@ == old(out)@ + module_lines(modules@.take(i as int), before@, after@),
        decreases modules@.len() - i,
    {
        out.append(before);
        out.append(modules[i].as_str());
        out.append(after);
        proof {
            assert(modules@.take(i + 1).drop_last() =~= modules@.take(i as int));
        }
        i += 1;
    }
    proof {
        assert(modules@.take(modules@.len() as int) =~= modules@);
    }
}

/// The `mod.rs` that declares and re-exports the generated modules of an export
/// directory, or `None` when the directory is `src` (once normalized) or no module was
/// generated.
pub fn mod_file_text(export_path: &str, modules: &[String]) -> (r: Option<String>)
    ensures
        r is None <==> (normalized_path(export_path.spec_bytes()) == seq![115u8, 114, 99]
            || modules@.len() == 0),
        r matches Some(text) ==> text@ == mod_file_chars(modules@),
{
    let bytes = export_path.as_bytes();
    let (start, end) = normalized_range(bytes);
    let src: [u8; 3] = [115, 114, 99];
    assert(src@ =~= seq![115u8, 114, 99]);
    if range_equals(bytes, start, end, &src) {
        return None;
    }
    if modules.len() == 0 {
        return None;
    }
    let mut out = String::new();
    out.append("// Auto-generated mod.rs - exports all generated modules\n");
    out.append("\n");
    append_module_lines(&mut out, modules, "pub mod ", ";\n");
    out.append("\n");
    append_module_lines(&mut out, modules, "pub use ", "::*;\n");
    proof {
        assert(out@ =~= mod_file_chars(modules@));
    }
    Some(out)
}

/// The names of a list of modules.
pub open spec fn module_names(modules: Seq<String>) -> Seq<Seq<char>> {
    modules.map_values(|m: String| m@)
}

/// Whether the file `file` lies in the export directory `export` (both as bytes): once the
/// file loses its leading `./` prefixes and the directory is normalized, the file's path
/// starts with the directory's.
pub open spec fn in_export_dir(export: Seq<u8>, file: Seq<u8>) -> bool {
    let dir = normalized_path(export);
    let f = file.subrange(leading_dot_slashes(file), file.len() as int);
    dir.len() <= f.len() && f.subrange(0, dir.len() as int) == dir
}

/// The module names after registering the module `stem` of the generated file `file` in
/// the export directory `export`: it is added at the end when the file lies in the export
/// directory and the name is not registered yet.
pub open spec fn registered_names(
    names: Seq<Seq<char>>,
    export: Seq<u8>,
    file: Seq<u8>,
    stem: Seq<char>,
) -> Seq<Seq<char>> {
    if in_export_dir(export, file) && !names.contains(stem) {
        names.push(stem)
    } else {
        names
    }
}

/// Whether some module of `modules` is named `name`.
fn contains_name(modules: &Vec<String>, name: &String) -> (r: bool)
    ensures
        r == module_names(modules@).contains(name@),
{
    let mut i: usize = 0;
    while i < modules.len()
        invariant
            i <= modules@.len(),
            forall|k: int| 0 <= k < i ==> modules@[k]@ != name@,
        decreases modules@.len() - i,
    {
        if modules[i] == *name {
            assert(module_names(modules@)[i as int] == name@);
            return true;
        }
        i += 1;
    }
    assert(!module_names(modules@).contains(name@)) by {
        if module_names(modules@).contains(name@) {
            let k = choose|k: int| 0 <= k < module_names(modules@).len() && module_names(modules@)[k] == name@;
            assert(modules@[k]@ == name@);
        }
    }
    false
}

/// Registers the generated file `file_path` for the `mod.rs` of the export directory
/// `export_path`: its module, named `stem` (the file name without its extension), is
/// added unless the file lies outside the export directory or the name is registered
/// already.
pub fn register_generated_module(modules: &mut Vec<String>, export_path: &str, file_path: &str, stem: &str)
    ensures
        module_names(final(modules)@) == registered_names(
            module_names(old(modules)@),
            export_path.spec_bytes(),
            file_path.spec_bytes(),
            stem@,
        ),
{
    let export = export_path.as_bytes();
    let file = file_path.as_bytes();
    let (dir_start, dir_end) = normalized_range(export);
    let (file_start, _file_end) = normalized_range(file);
    proof {
        lemma_strip_bounds(file@);
    }
    let dir_len = dir_end - dir_start;
    let ghost dir = normalized_path(export@);
    let ghost f = file@.subrange(leading_dot_slashes(file@), file@.len() as int);
    let mut inside = dir_len <= file.len() - file_start;
    if inside {
        let mut i: usize = 0;
        while i < dir_len && export[dir_start + i] == file[file_start + i]
            invariant
                i <= dir_len,
                dir_len == dir.len(),
                dir_len <= f.len(),
                dir_start + dir_len <= export@.len(),
                file_start + dir_len <= file.len(),
                file_start == leading_dot_slashes(file@),
                f == file@.subrange(file_start as int, file@.len() as int),
                dir == export@.subrange(dir_start as int, dir_end as int),
                dir_end == dir_start + dir_len,
                forall|k: int| 0 <= k < i ==> f[k] == dir[k],
            decreases dir_len - i,
        {
            i += 1;
        }
        inside = i == dir_len;
        proof {
            if inside {
                assert(f.subrange(0, dir.len() as int) =~= dir);
            } else {
                assert(f.subrange(0, dir.len() as int)[i as int] != dir[i as int]);
            }
        }
    }
    assert(inside == in_export_dir(export@, file@));
    let name = stem.to_owned();
    if inside && !contains_name(modules, &name) {
        modules.push(name);
        assert(module_names(modules@) =~= module_names(old(modules)@).push(stem@));
    }
}

/// Registering the same generated file twice registers it once.
pub proof fn lemma_register_idempotent(names: Seq<Seq<char>>, export: Seq<u8>, file: Seq<u8>, stem: Seq<char>)
    ensures
        registered_names(registered_names(names, export, file, stem), export, file, stem)
            == registered_names(names, export, file, stem),
{
    let once = registered_names(names, export, file, stem);
    if in_export_dir(export, file) && !names.contains(stem) {
        assert(once[once.len() - 1] == stem);
        assert(once.contains(stem));
    }
}

/// Registering keeps a list of module names free of repeats.
pub proof fn lemma_register_no_repeats(names: Seq<Seq<char>>, export: Seq<u8>, file: Seq<u8>, stem: Seq<char>)
    requires
        names.no_duplicates(),
    ensures
        registered_names(names, export, file, stem).no_duplicates(),
{
    let once = registered_names(names, export, file, stem);
    if in_export_dir(export, file) && !names.contains(stem) {
        assert forall|i: int, j: int| 0 <= i < j < once.len() implies once[i] != once[j] by {
            if j == once.len() - 1 {
                assert(names[i] == once[i]);
            }
        }
    }
}

} // verus!
