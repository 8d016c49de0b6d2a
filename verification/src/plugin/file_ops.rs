//! The file plugin's access control: resolving requested paths, checking them against the
//! session's directory permissions, and granting access to a directory.
use vstd::prelude::*;
use crate::models::chat::{DirectoryPermission, FileOpsConfig};
use crate::error::AppError;
use crate::json::{json_string_at, string_field};
use crate::models::plugin::{is_tool, make_tool, ToolCall, ToolDefinition, ToolResult};
use crate::text::{
    opt_text, concat2, contains_seq, contains_text, occurs_at, ends_with_text, is_prefix, is_suffix, lowercase, lowercased,
    ascii_lower, ascii_lowercase, is_ascii_text, lemma_replace_char, swap_char, replace_all, replace_str, same_text, starts_with_text, trim_end_char, trimmed_end,
};

verus! {

/// A path's text prepared for comparison: backslashes turned into slashes, then lower-cased.
pub open spec fn normalized(p: Seq<char>) -> Seq<char> {
    lowercase(replace_all(p, "\\"@, "/"@))
}

/// A directory's comparison text, ending with exactly the slash it had or one added.
pub open spec fn dir_prefix(d: Seq<char>) -> Seq<char> {
    let n = normalized(d);
    if n.len() > 0 && n.last() == '/' {
        n
    } else {
        n.push('/')
    }
}

/// `path` is the directory `dir` itself or lies under it (compared without regard to case
/// or slash direction).
pub open spec fn path_within(path: Seq<char>, dir: Seq<char>) -> bool {
    normalized(path) == trim_end_char(dir_prefix(dir), '/') || is_prefix(dir_prefix(dir), normalized(path))
}

/// The comparison text of an ASCII path: backslashes turned into slashes, then `A`-`Z`
/// lower-cased.
pub open spec fn ascii_normalized(p: Seq<char>) -> Seq<char> {
    ascii_lowercase(swap_char(p, '\\', '/'))
}

/// `ascii_normalized`, character by character.
pub open spec fn norm_char(c: char) -> char {
    ascii_lower(if c == '\\' { '/' } else { c })
}

proof fn lemma_ascii_normalized(p: Seq<char>)
    ensures
        ascii_normalized(p) == p.map_values(|c: char| norm_char(c)),
        is_ascii_text(p) ==> is_ascii_text(swap_char(p, '\\', '/')),
{
    assert(ascii_normalized(p) =~= p.map_values(|c: char| norm_char(c)));
}

/// The comparison text of a path.
pub fn normalize_for_comparison(path: &str) -> (n: String)
    ensures
        n@ == normalized(path@),
        is_ascii_text(path@) ==> n@ == ascii_normalized(path@),
{
    proof {
        reveal_strlit("\\");
        reveal_strlit("/");
        lemma_replace_char(path@, '\\', '/', 0);
        assert(path@.subrange(0, path@.len() as int) =~= path@);
        assert("\\"@ =~= seq!['\\']);
        assert("/"@ =~= seq!['/']);
        lemma_ascii_normalized(path@);
    }
    let slashed = replace_str(path, "\\", "/");
    lowercased(slashed.as_str())
}

/// A directory's comparison text for ASCII paths, ending with exactly the slash it had or one
/// added.
pub open spec fn ascii_dir_prefix(d: Seq<char>) -> Seq<char> {
    let n = ascii_normalized(d);
    if n.len() > 0 && n.last() == '/' {
        n
    } else {
        n.push('/')
    }
}

/// `path_within` for ASCII paths.
pub open spec fn ascii_within(path: Seq<char>, dir: Seq<char>) -> bool {
    ascii_normalized(path) == trim_end_char(ascii_dir_prefix(dir), '/') || is_prefix(
        ascii_dir_prefix(dir),
        ascii_normalized(path),
    )
}

/// Whether `path` is `dir` or lies under it.
pub fn is_path_within(path: &str, dir: &str) -> (b: bool)
    ensures
        b == path_within(path@, dir@),
        is_ascii_text(path@) && is_ascii_text(dir@) ==> b == ascii_within(path@, dir@),
{
    let norm_path = normalize_for_comparison(path);
    let mut norm_dir = normalize_for_comparison(dir);
    proof {
        reveal_strlit("/");
    }
    if !ends_with_text(norm_dir.as_str(), "/") {
        norm_dir.append("/");
        assert(norm_dir@ =~= dir_prefix(dir@)) by {
            let n = normalized(dir@);
            if n.len() > 0 && n.last() == '/' {
                assert(n.subrange(n.len() - 1, n.len() as int) =~= "/"@);
            }
        }
    } else {
        assert(norm_dir@ =~= dir_prefix(dir@)) by {
            let n = normalized(dir@);
            assert(n.subrange(n.len() - 1, n.len() as int) == "/"@);
            assert(n.last() == n.subrange(n.len() - 1, n.len() as int)[0]);
        }
    }
    let trimmed_dir = trimmed_end(norm_dir.as_str(), '/');
    same_text(norm_path.as_str(), trimmed_dir.as_str()) || starts_with_text(
        norm_path.as_str(),
        norm_dir.as_str(),
    )
}

/// A permission that grants the kind of access asked for: write access when writing, read
/// access otherwise.
pub open spec fn grants(p: DirectoryPermission, require_write: bool) -> bool {
    if require_write {
        p.allow_write
    } else {
        p.allow_read
    }
}

/// Some permission grants the access asked for on a directory that holds `path`.
pub open spec fn acl_allows(path: Seq<char>, acl: Seq<DirectoryPermission>, require_write: bool) -> bool {
    exists|i: int|
        0 <= i < acl.len() && grants(#[trigger] acl[i], require_write) && path_within(path, acl[i].path@)
}

/// The message of a refused access: `アクセス拒否: '{path}' は許可されたディレクトリ内にない（{op}権限なし）`
/// with `op` 書き込み when writing, 読み取り otherwise.
pub open spec fn acl_denied_message(path: Seq<char>, require_write: bool) -> Seq<char> {
    "アクセス拒否: '"@ + path + "' は許可されたディレクトリ内にない（"@ + (if require_write {
        "書き込み"@
    } else {
        "読み取り"@
    }) + "権限なし）"@
}

/// Checks an already resolved path against the permissions: it is returned when some
/// permission of the asked kind covers a directory holding it; else the access is refused,
/// naming the path as it was asked for.
pub fn check_acl(
    resolved: &str,
    path_str: &str,
    acl: &[DirectoryPermission],
    require_write: bool,
) -> (r: Result<String, String>)
    ensures
        acl_allows(resolved@, acl@, require_write) ==> (r matches Ok(p) && p@ == resolved@),
        !acl_allows(resolved@, acl@, require_write) ==> (r matches Err(m) && m@
            == acl_denied_message(path_str@, require_write)),
{
    let mut i: usize = 0;
    while i < acl.len()
        invariant
            i <= acl.len(),
            forall|j: int|
                0 <= j < i ==> !(grants(#[trigger] acl@[j], require_write) && path_within(
                    resolved@,
                    acl@[j].path@,
                )),
        decreases acl.len() - i,
    {
        let perm = &acl[i];
        let allowed = if require_write {
            perm.allow_write
        } else {
            perm.allow_read
        };
        if allowed && is_path_within(resolved, perm.path.as_str()) {
            return Ok(String::from_str(resolved));
        }
        i += 1;
    }
    let op = if require_write {
        "書き込み"
    } else {
        "読み取り"
    };
    let mut m = String::from_str("アクセス拒否: '");
    m.append(path_str);
    m.append("' は許可されたディレクトリ内にない（");
    m.append(op);
    m.append("権限なし）");
    Err(m)
}

/// A character that some platform reads as a path separator.
pub open spec fn is_sep(c: char) -> bool {
    c == '/' || c == '\\'
}

/// A path text that no platform reads as starting with a prefix: it starts neither with two
/// separators (`\\server`, `\\?\`, `\\.\`) nor with a drive (`C:`).
pub open spec fn prefix_free(p: Seq<char>) -> bool {
    !(p.len() >= 2 && (p[1] == ':' || (is_sep(p[0]) && is_sep(p[1]))))
}

/// `..` stands at `i` as a whole segment between `/` separators or the ends of the text.
pub open spec fn slash_dotdot_at(p: Seq<char>, i: int) -> bool {
    &&& occurs_at(p, ".."@, i)
    &&& (i == 0 || p[i - 1] == '/')
    &&& (i + 2 == p.len() || p[i + 2] == '/')
}

/// The path has a `..` segment between `/` separators (a separator on every platform).
pub open spec fn slash_dotdot(p: Seq<char>) -> bool {
    exists|i: int| #[trigger] slash_dotdot_at(p, i)
}

/// `..` stands at `i` between characters that some platform reads as separators or as the end
/// of a drive prefix, or the ends of the text.
pub open spec fn loose_dotdot_at(p: Seq<char>, i: int) -> bool {
    &&& occurs_at(p, ".."@, i)
    &&& (i == 0 || is_sep(p[i - 1]) || p[i - 1] == ':')
    &&& (i + 2 == p.len() || is_sep(p[i + 2]))
}

/// The path has a `..` segment on some platform.
pub open spec fn loose_dotdot(p: Seq<char>) -> bool {
    exists|i: int| #[trigger] loose_dotdot_at(p, i)
}

/// The kind of a component of a path (`std::path::Component`), without its text.
#[derive(Debug, Clone, Copy, PartialEq, Eq)]
pub enum PathPart {
    Prefix,
    RootDir,
    CurDir,
    ParentDir,
    Normal,
}

/// Some component is a parent-directory component.
pub open spec fn has_parent_part(parts: Seq<PathPart>) -> bool {
    exists|k: int| 0 <= k < parts.len() && (#[trigger] parts[k]) is ParentDir
}

/// The kinds of the components of a path (`std::path::Path::components`).
///
/// Trusted: a parent-directory component is the text `..` (`Component::ParentDir`) as a whole
/// component, and components lie between separators (`/`, and `\` on Windows, after a drive
/// prefix's `:`), so a path with one has such a `..` segment. On every platform `/` separates
/// components, so a path that does not start with a prefix and has a `..` segment between
/// `/` separators or the ends has one. Other cases depend on the platform and are not stated.
#[verifier::external_body]
fn path_parts(path: &str) -> (parts: Vec<PathPart>)
    ensures
        has_parent_part(parts@) ==> loose_dotdot(path@),
        prefix_free(path@) && slash_dotdot(path@) ==> has_parent_part(parts@),
{
    std::path::Path::new(path).components().map(|c| match c {
        std::path::Component::Prefix(_) => PathPart::Prefix,
        std::path::Component::RootDir => PathPart::RootDir,
        std::path::Component::CurDir => PathPart::CurDir,
        std::path::Component::ParentDir => PathPart::ParentDir,
        std::path::Component::Normal(_) => PathPart::Normal,
    }).collect()
}

/// Whether a path has a `..` component.
fn has_parent_component(path: &str) -> (b: bool)
    ensures
        b ==> loose_dotdot(path@),
        prefix_free(path@) && slash_dotdot(path@) ==> b,
{
    let parts = path_parts(path);
    let mut i: usize = 0;
    while i < parts.len()
        invariant
            i <= parts.len(),
            forall|k: int| 0 <= k < i ==> !((#[trigger] parts@[k]) is ParentDir),
            has_parent_part(parts@) ==> loose_dotdot(path@),
        decreases parts.len() - i,
    {
        if matches!(parts[i], PathPart::ParentDir) {
            assert(has_parent_part(parts@));
            return true;
        }
        i += 1;
    }
    false
}

/// A relative path that every platform reads the same way: no `\`, no `:`, and not starting
/// with `/`.
pub open spec fn plain_relative(p: Seq<char>) -> bool {
    &&& forall|i: int| 0 <= i < p.len() ==> #[trigger] p[i] != '\\' && p[i] != ':'
    &&& (p.len() == 0 || p[0] != '/')
}

/// A path that starts with one `/` and no prefix: rooted on every platform.
pub open spec fn rooted(p: Seq<char>) -> bool {
    p.len() > 0 && p[0] == '/' && prefix_free(p)
}

/// Whether a path is absolute (`std::path::Path::is_absolute`).
///
/// Trusted: as documented, a path is absolute on Unix when it starts with the root, and on
/// Windows when it has a prefix and a root; a plain relative path has neither. Other cases
/// depend on the platform and are not stated.
#[verifier::external_body]
fn path_is_absolute(path: &str) -> (b: bool)
    ensures
        plain_relative(path@) ==> !b,
{
    std::path::Path::new(path).is_absolute()
}

/// A path that starts with a verbatim prefix (`\\?\`, on Windows).
pub open spec fn verbatim_path(p: Seq<char>) -> bool {
    is_prefix("\\\\?\\"@, p)
}

/// A base directory that joins plainly: not empty, not verbatim, not a bare drive (`C:`), and
/// not ending with `\` (a separator on Windows only).
pub open spec fn plain_base(b: Seq<char>) -> bool {
    &&& b.len() > 0
    &&& !verbatim_path(b)
    &&& !(b.len() == 2 && b[1] == ':')
    &&& b.last() != '\\'
}

/// `p` is `base` extended by `path`: directly after a trailing `/`, else after one separator.
pub open spec fn joined(base: Seq<char>, path: Seq<char>, p: Seq<char>) -> bool {
    if base.len() > 0 && base.last() == '/' {
        p == base + path
    } else {
        &&& p.len() == base.len() + 1 + path.len()
        &&& p.subrange(0, base.len() as int) == base
        &&& is_sep(p[base.len() as int])
        &&& p.subrange(base.len() as int + 1, p.len() as int) == path
    }
}

/// `base` joined with `path` (`std::path::Path::join`), as text.
///
/// Trusted, as `Path::push` documents it: a relative path extends `base`, after a separator
/// (`/`, or `\` on Windows) unless `base` ends with one; an absolute path, or on Windows a
/// rooted one without prefix, replaces `base` (all but its prefix, which a prefix-free base
/// does not have); either way the result ends with `path`, except where `base` has a verbatim
/// prefix, whose joins are normalised.
#[verifier::external_body]
fn path_join(base: &str, path: &str) -> (r: String)
    ensures
        !verbatim_path(base@) ==> is_suffix(path@, r@),
        plain_base(base@) && plain_relative(path@) ==> joined(base@, path@, r@),
        prefix_free(base@) && rooted(path@) ==> r@ == path@,
{
    std::path::Path::new(base).join(path).to_string_lossy().into_owned()
}

/// A path text without any character that a platform reads as a separator or a prefix
/// (`/`, `\`, `:`).
pub open spec fn no_separator(p: Seq<char>) -> bool {
    forall|i: int| 0 <= i < p.len() ==> #[trigger] p[i] != '/' && p[i] != '\\' && p[i] != ':'
}

/// Index of the last `c` in `p` before `end`, or -1.
pub open spec fn last_index(p: Seq<char>, c: char, end: int) -> int
    decreases end,
{
    if end <= 0 {
        -1
    } else if p[end - 1] == c {
        end - 1
    } else {
        last_index(p, c, end - 1)
    }
}

/// The text after the last `/` of a path (the whole text when it has none).
pub open spec fn last_segment(p: Seq<char>) -> Seq<char> {
    p.subrange(last_index(p, '/', p.len() as int) + 1, p.len() as int)
}

/// A last segment that is a file name on every platform: not empty, not `.`, and without `\`
/// or `:`.
pub open spec fn plain_file_name(s: Seq<char>) -> bool {
    s.len() > 0 && s != "."@ && no_separator(s)
}

/// The extension of a file name, as `Path::extension` documents it: none for `..`, none
/// without a `.` or when the only `.` is the first character, else what follows the last `.`.
pub open spec fn plain_extension(name: Seq<char>) -> Option<Seq<char>> {
    let d = last_index(name, '.', name.len() as int);
    if name == ".."@ || d <= 0 {
        None
    } else {
        Some(name.subrange(d + 1, name.len() as int))
    }
}

/// The extension of a path's file name (`std::path::Path::extension`), as text.
///
/// Trusted: for a path without a prefix whose text after the last `/` is a plain file name,
/// that text is the final component (`Path::file_name`), and its extension is as
/// `Path::extension` documents (`plain_extension`). Other paths depend on the platform and
/// are not stated.
#[verifier::external_body]
fn path_extension(path: &str) -> (r: Option<String>)
    ensures
        prefix_free(path@) && plain_file_name(last_segment(path@)) ==> opt_text(r)
            == plain_extension(last_segment(path@)),
{
    std::path::Path::new(path).extension().and_then(|e| e.to_str()).map(|e| e.to_string())
}

/// What is known of `p`, the path `path` resolved against the base directory `base`, on
/// every platform: but for a verbatim base it ends with `path`; a plain relative path
/// extends a plain base; a rooted path stays as it is against a prefix-free base.
pub open spec fn resolved_from(base: Seq<char>, path: Seq<char>, p: Seq<char>) -> bool {
    &&& (!verbatim_path(base) ==> is_suffix(path, p))
    &&& (plain_base(base) && plain_relative(path) ==> joined(base, path, p))
    &&& (prefix_free(base) && rooted(path) ==> p == path)
}

/// A plain relative ASCII path joined to a plain ASCII base lies within the base.
pub proof fn lemma_joined_within(base: Seq<char>, path: Seq<char>, q: Seq<char>)
    requires
        plain_base(base),
        is_ascii_text(base),
        is_ascii_text(path),
        joined(base, path, q),
    ensures
        is_ascii_text(q),
        ascii_within(q, base),
{
    lemma_ascii_normalized(q);
    lemma_ascii_normalized(base);
    lemma_ascii_normalized(path);
    let nb = ascii_normalized(base);
    let np = ascii_normalized(path);
    let nq = ascii_normalized(q);
    let b = base.len() as int;
    assert(nb.last() == norm_char(base.last()));
    if base.last() == '/' {
        assert(q =~= base + path);
        assert forall|i: int| 0 <= i < q.len() implies (#[trigger] q[i] as u32) < 128 by {
            if i < b {
                assert(q[i] == base[i]);
            } else {
                assert(q[i] == path[i - b]);
            }
        }
        assert(nq =~= nb + np);
        assert(ascii_dir_prefix(base) == nb);
        assert(nq.subrange(0, nb.len() as int) =~= nb);
    } else {
        assert(q[b] == '/' || q[b] == '\\');
        assert forall|i: int| 0 <= i < q.len() implies (#[trigger] q[i] as u32) < 128 by {
            if i < b {
                assert(q[i] == q.subrange(0, b)[i]);
            } else if i > b {
                assert(q[i] == q.subrange(b + 1, q.len() as int)[i - b - 1]);
            }
        }
        assert(nq =~= nb + seq![norm_char(q[b])] + np) by {
            assert forall|i: int| 0 <= i < nq.len() implies nq[i] == (nb + seq![norm_char(q[b])]
                + np)[i] by {
                if i < b {
                    assert(q[i] == q.subrange(0, b)[i]);
                } else if i > b {
                    assert(q[i] == q.subrange(b + 1, q.len() as int)[i - b - 1]);
                }
            }
        }
        assert(norm_char(q[b]) == '/');
        assert(nb.last() != '/');
        assert(ascii_dir_prefix(base) =~= nb.push('/'));
        assert(nq.subrange(0, nb.len() as int + 1) =~= nb.push('/'));
    }
}

/// The file plugin; paths without a directory permission are resolved against `base_dir`.
#[derive(Debug, Clone)]
pub struct FileOpsPlugin {
    pub base_dir: String,
}

/// The refusal of a path with a `..` component.
pub const DOTDOT_MESSAGE: &'static str = "パスに '..' を含めることはできない";

/// The refusal of a path outside the base directory.
pub open spec fn sandbox_denied_message(path: Seq<char>) -> Seq<char> {
    "アクセス拒否: '"@ + path + "' はサンドボックス外"@
}

/// The extensions of image files, in lower case.
pub open spec fn image_extension(ext: Seq<char>) -> bool {
    ext == "png"@ || ext == "jpg"@ || ext == "jpeg"@ || ext == "gif"@ || ext == "webp"@ || ext
        == "bmp"@ || ext == "ico"@ || ext == "svg"@
}

/// Whether a file extension names an image, whatever its case.
pub fn is_image_ext(ext: Option<&str>) -> (b: bool)
    ensures
        b == match ext {
            Some(e) => image_extension(lowercase(e@)),
            None => false,
        },
{
    match ext {
        None => false,
        Some(e) => {
            let l = lowercased(e);
            let s = l.as_str();
            same_text(s, "png") || same_text(s, "jpg") || same_text(s, "jpeg") || same_text(
                s,
                "gif",
            ) || same_text(s, "webp") || same_text(s, "bmp") || same_text(s, "ico") || same_text(
                s,
                "svg",
            )
        },
    }
}

/// The plain value of a permission: path, read, write.
pub open spec fn perm_views(acl: Seq<DirectoryPermission>) -> Seq<(Seq<char>, bool, bool)> {
    acl.map_values(|p: DirectoryPermission| (p.path@, p.allow_read, p.allow_write))
}

/// Position of the first permission for exactly `dir`, or -1.
pub open spec fn perm_position(v: Seq<(Seq<char>, bool, bool)>, dir: Seq<char>, i: int) -> int
    decreases v.len() - i,
{
    if i < 0 || i >= v.len() {
        -1
    } else if v[i].0 == dir {
        i
    } else {
        perm_position(v, dir, i + 1)
    }
}

/// Gives read access, and write access when `requires_write`, to `dir`: the first permission
/// for exactly that path is widened (it keeps write access it had), or a new permission is
/// added at the end.
pub open spec fn grant_spec(v: Seq<(Seq<char>, bool, bool)>, dir: Seq<char>, requires_write: bool) -> Seq<
    (Seq<char>, bool, bool),
> {
    let i = perm_position(v, dir, 0);
    if i >= 0 {
        v.update(i, (dir, true, v[i].2 || requires_write))
    } else {
        v.push((dir, true, requires_write))
    }
}

proof fn lemma_perm_position(v: Seq<(Seq<char>, bool, bool)>, dir: Seq<char>, i: int)
    requires
        0 <= i,
    ensures
        perm_position(v, dir, i) >= 0 ==> i <= perm_position(v, dir, i) < v.len() && v[perm_position(
            v,
            dir,
            i,
        )].0 == dir,
        perm_position(v, dir, i) < 0 ==> forall|j: int| i <= j < v.len() ==> v[j].0 != dir,
    decreases v.len() - i,
{
    if i < v.len() && v[i].0 != dir {
        lemma_perm_position(v, dir, i + 1);
    }
}

/// Widens the permissions of a session's file tools so that `dir_path` can be read, and
/// written when `requires_write`.
pub fn grant_access(config: &mut FileOpsConfig, dir_path: String, requires_write: bool)
    ensures
        perm_views(final(config).directories@) == grant_spec(
            perm_views(old(config).directories@),
            dir_path@,
            requires_write,
        ),
{
    let ghost v = perm_views(config.directories@);
    let mut i: usize = 0;
    while i < config.directories.len()
        invariant
            i <= config.directories.len(),
            v == perm_views(config.directories@),
            config.directories@ == old(config).directories@,
            perm_position(v, dir_path@, 0) == perm_position(v, dir_path@, i as int),
        decreases config.directories.len() - i,
    {
        if same_text(config.directories[i].path.as_str(), dir_path.as_str()) {
            let old_write = config.directories[i].allow_write;
            let perm = DirectoryPermission {
                path: dir_path,
                allow_read: true,
                allow_write: old_write || requires_write,
            };
            config.directories.set(i, perm);
            assert(perm_views(config.directories@) =~= grant_spec(v, perm.path@, requires_write));
            return;
        }
        i += 1;
    }
    let ghost d = dir_path@;
    config.directories.push(
        DirectoryPermission { path: dir_path, allow_read: true, allow_write: requires_write },
    );
    assert(perm_views(config.directories@) =~= grant_spec(v, d, requires_write));
}

/// Granting works: once access to `dir` is granted, every path within `dir` passes the
/// permission check for the access that was granted.
pub proof fn lemma_grant_allows(
    old_acl: Seq<DirectoryPermission>,
    new_acl: Seq<DirectoryPermission>,
    dir: Seq<char>,
    requires_write: bool,
    path: Seq<char>,
)
    requires
        perm_views(new_acl) == grant_spec(perm_views(old_acl), dir, requires_write),
        path_within(path, dir),
    ensures
        acl_allows(path, new_acl, requires_write),
        acl_allows(path, new_acl, false),
{
    let v = perm_views(old_acl);
    lemma_perm_position(v, dir, 0);
    let i = perm_position(v, dir, 0);
    let k = if i >= 0 { i } else { v.len() as int };
    assert(perm_views(new_acl).len() == new_acl.len());
    assert(0 <= k < new_acl.len());
    assert(perm_views(new_acl)[k] == (new_acl[k].path@, new_acl[k].allow_read, new_acl[k].allow_write));
    assert(new_acl[k].path@ == dir);
    assert(grants(new_acl[k], requires_write));
    assert(grants(new_acl[k], false));
}

/// Whether a refused operation should ask the user for access: the error is an access refusal
/// and the call belongs to a session.
pub fn should_request_access(err: &str, has_session: bool) -> (b: bool)
    ensures
        b == (contains_seq(err@, "アクセス拒否"@) && has_session),
{
    proof {
        reveal_strlit("アクセス拒否");
    }
    contains_text(err, "アクセス拒否") && has_session
}

/// A successful tool result.
pub fn ok_result(id: &str, content: String) -> (r: ToolResult)
    ensures
        r.tool_call_id@ == id@,
        r.content == content,
        !r.is_error,
{
    ToolResult { tool_call_id: String::from_str(id), content, is_error: false }
}

/// A failed tool result.
pub fn err_result(id: &str, content: String) -> (r: ToolResult)
    ensures
        r.tool_call_id@ == id@,
        r.content == content,
        r.is_error,
{
    ToolResult { tool_call_id: String::from_str(id), content, is_error: true }
}

/// The permissions of a session's stored file configuration; none when it lists none.
pub fn acl_of(config: Option<FileOpsConfig>) -> (r: Option<Vec<DirectoryPermission>>)
    ensures
        match config {
            Some(c) => if c.directories@.len() == 0 {
                r is None
            } else {
                r == Some(c.directories)
            },
            None => r is None,
        },
{
    match config {
        Some(c) => if c.directories.len() == 0 {
            None
        } else {
            Some(c.directories)
        },
        None => None,
    }
}

impl FileOpsPlugin {
    /// The plugin, resolving relative paths against `base_dir`.
    pub fn new(base_dir: String) -> (p: Self)
        ensures
            p.base_dir == base_dir,
    {
        FileOpsPlugin { base_dir }
    }

    /// The plugin's name.
    pub fn name(&self) -> (s: &'static str)
        ensures
            s@ == "file_ops"@,
    {
        "file_ops"
    }

    /// The plugin's description.
    pub fn description(&self) -> (s: &'static str)
        ensures
            s@ == FILE_OPS_DESCRIPTION@,
    {
        FILE_OPS_DESCRIPTION
    }

    /// The plugin's four tools.
    pub fn tools(&self) -> (tools: Vec<ToolDefinition>)
        ensures
            tools@.len() == 4,
            is_tool(tools@[0], "read_file"@, READ_FILE_DESCRIPTION@, READ_FILE_SCHEMA@),
            is_tool(tools@[1], "write_file"@, WRITE_FILE_DESCRIPTION@, WRITE_FILE_SCHEMA@),
            is_tool(tools@[2], "list_directory"@, LIST_DIRECTORY_DESCRIPTION@, LIST_DIRECTORY_SCHEMA@),
            is_tool(tools@[3], "search_files"@, SEARCH_FILES_DESCRIPTION@, SEARCH_FILES_SCHEMA@),
    {
        let mut tools: Vec<ToolDefinition> = Vec::new();
        tools.push(make_tool("read_file", READ_FILE_DESCRIPTION, READ_FILE_SCHEMA));
        tools.push(make_tool("write_file", WRITE_FILE_DESCRIPTION, WRITE_FILE_SCHEMA));
        tools.push(make_tool("list_directory", LIST_DIRECTORY_DESCRIPTION, LIST_DIRECTORY_SCHEMA));
        tools.push(make_tool("search_files", SEARCH_FILES_DESCRIPTION, SEARCH_FILES_SCHEMA));
        tools
    }

    /// The operation a call asks for, reading its string arguments `path`, `content` and
    /// `pattern`.
    pub fn plan(&self, call: &ToolCall) -> (r: Result<FileOp, AppError>)
        ensures
            file_op_spec(
                call.name@,
                json_string_at(call.arguments, "path"@),
                json_string_at(call.arguments, "content"@),
                json_string_at(call.arguments, "pattern"@),
                r,
            ),
    {
        let path = string_field(&call.arguments, "path");
        let content = string_field(&call.arguments, "content");
        let pattern = string_field(&call.arguments, "pattern");
        file_op(call.name.as_str(), path, content, pattern)
    }

    /// Refuses a path with a `..` component; resolves a relative path against the base
    /// directory, and keeps an absolute one.
    pub fn resolve_path(&self, path_str: &str) -> (r: Result<String, String>)
        ensures
            r matches Err(m) ==> m@ == DOTDOT_MESSAGE@ && loose_dotdot(path_str@),
            prefix_free(path_str@) && slash_dotdot(path_str@) ==> (r matches Err(m) && m@
                == DOTDOT_MESSAGE@),
            !loose_dotdot(path_str@) ==> r is Ok,
            r matches Ok(p) ==> resolved_from(self.base_dir@, path_str@, p@),
    {
        if has_parent_component(path_str) {
            return Err(String::from_str(DOTDOT_MESSAGE));
        }
        if path_is_absolute(path_str) {
            let p = String::from_str(path_str);
            assert(p@.subrange(p@.len() - path_str@.len(), p@.len() as int) =~= path_str@);
            Ok(p)
        } else {
            Ok(path_join(self.base_dir.as_str(), path_str))
        }
    }

    /// Resolves a path and checks the resolved path against the permissions: it is accepted
    /// exactly when a permission of the asked kind covers a directory holding it.
    pub fn validate_path_with_acl(
        &self,
        path_str: &str,
        acl: &[DirectoryPermission],
        require_write: bool,
    ) -> (r: Result<String, String>)
        ensures
            r matches Ok(p) ==> acl_allows(p@, acl@, require_write) && resolved_from(
                self.base_dir@,
                path_str@,
                p@,
            ),
            r matches Err(m) ==> (m@ == DOTDOT_MESSAGE@ && loose_dotdot(path_str@)) || (m@
                == acl_denied_message(path_str@, require_write) && exists|q: Seq<char>|
                #[trigger] resolved_from(self.base_dir@, path_str@, q) && !acl_allows(
                    q,
                    acl@,
                    require_write,
                )),
            prefix_free(path_str@) && slash_dotdot(path_str@) ==> (r matches Err(m) && m@
                == DOTDOT_MESSAGE@),
    {
        let resolved = self.resolve_path(path_str)?;
        let r = check_acl(resolved.as_str(), path_str, acl, require_write);
        proof {
            if r is Err {
                assert(resolved_from(self.base_dir@, path_str@, resolved@));
            }
        }
        r
    }

    /// Without permissions: resolves a path and accepts it exactly when it is the base
    /// directory or lies under it (compared at a `/` boundary, without regard to case or
    /// slash direction).
    pub fn validate_path(&self, path_str: &str) -> (r: Result<String, String>)
        ensures
            r matches Ok(p) ==> path_within(p@, self.base_dir@) && resolved_from(
                self.base_dir@,
                path_str@,
                p@,
            ),
            r matches Err(m) ==> (m@ == DOTDOT_MESSAGE@ && loose_dotdot(path_str@)) || (m@
                == sandbox_denied_message(path_str@) && exists|q: Seq<char>|
                #[trigger] resolved_from(self.base_dir@, path_str@, q) && !path_within(
                    q,
                    self.base_dir@,
                )),
            prefix_free(path_str@) && slash_dotdot(path_str@) ==> (r matches Err(m) && m@
                == DOTDOT_MESSAGE@),
            plain_base(self.base_dir@) && is_ascii_text(self.base_dir@) && plain_relative(
                path_str@,
            ) && is_ascii_text(path_str@) && !loose_dotdot(path_str@) ==> r is Ok,
    {
        let resolved = self.resolve_path(path_str)?;
        if !is_path_within(resolved.as_str(), self.base_dir.as_str()) {
            proof {
                assert(resolved_from(self.base_dir@, path_str@, resolved@));
                if plain_base(self.base_dir@) && is_ascii_text(self.base_dir@) && plain_relative(
                    path_str@,
                ) && is_ascii_text(path_str@) {
                    lemma_joined_within(self.base_dir@, path_str@, resolved@);
                }
            }
            let mut m = String::from_str("アクセス拒否: '");
            m.append(path_str);
            m.append("' はサンドボックス外");
            return Err(m);
        }
        Ok(resolved)
    }

    /// Checks a path against the permissions when the session has any, else against the base
    /// directory.
    pub fn validate_path_for_op(
        &self,
        path_str: &str,
        acl: &Option<Vec<DirectoryPermission>>,
        require_write: bool,
    ) -> (r: Result<String, String>)
        ensures
            r matches Ok(p) ==> resolved_from(self.base_dir@, path_str@, p@) && match acl {
                Some(dirs) => acl_allows(p@, dirs@, require_write),
                None => path_within(p@, self.base_dir@),
            },
            r matches Err(m) ==> (m@ == DOTDOT_MESSAGE@ && loose_dotdot(path_str@)) || match acl {
                Some(dirs) => m@ == acl_denied_message(path_str@, require_write) && exists|
                    q: Seq<char>,
                | #[trigger] resolved_from(self.base_dir@, path_str@, q) && !acl_allows(
                    q,
                    dirs@,
                    require_write,
                ),
                None => m@ == sandbox_denied_message(path_str@) && exists|q: Seq<char>|
                    #[trigger] resolved_from(self.base_dir@, path_str@, q) && !path_within(
                        q,
                        self.base_dir@,
                    ),
            },
            prefix_free(path_str@) && slash_dotdot(path_str@) ==> (r matches Err(m) && m@
                == DOTDOT_MESSAGE@),
            acl is None && plain_base(self.base_dir@) && is_ascii_text(self.base_dir@)
                && plain_relative(path_str@) && is_ascii_text(path_str@) && !loose_dotdot(
                path_str@,
            ) ==> r is Ok,
    {
        match acl {
            Some(dirs) => self.validate_path_with_acl(path_str, dirs.as_slice(), require_write),
            None => self.validate_path(path_str),
        }
    }

    /// Whether a path names an image file, by its extension: for a path whose text after the
    /// last `/` is a plain file name, whether the text after that name's last `.` is an image
    /// extension in any case.
    pub fn is_image_extension(path: &str) -> (b: bool)
        ensures
            prefix_free(path@) && plain_file_name(last_segment(path@)) ==> b == match plain_extension(
                last_segment(path@),
            ) {
                Some(e) => image_extension(lowercase(e)),
                None => false,
            },
    {
        let ext = path_extension(path);
        match &ext {
            Some(e) => is_image_ext(Some(e.as_str())),
            None => false,
        }
    }
}

/// The description of the file plugin.
pub const FILE_OPS_DESCRIPTION: &'static str = "[Purpose] A plugin that gives the AI the ability to read and write files on the user's machine. Provides four tools: read_file, write_file, list_directory, and search_files.\n[When to use] Enable this plugin when the user wants the AI to access, create, edit, or search files or directories.\n[Out of scope] Cannot execute files or run shell commands. Cannot access paths that the user has not explicitly permitted — a confirmation dialog is automatically shown to the user when permission is required. Access is denied and an error is returned if the user rejects the request.";

/// The description of the `read_file` tool.
pub const READ_FILE_DESCRIPTION: &'static str = "[Purpose] Read the contents of a file and return them. Text files are returned as plain strings; image files (.png/.jpg/.jpeg/.gif/.webp/.bmp) are returned as Base64-encoded strings.\n[When to use] HIGHEST PRIORITY: If the user's message contains a file path, call this tool immediately as your first action — before responding, before asking questions, before anything else. Do NOT guess or assume the file's contents. Additionally, call this tool proactively whenever reading the file would help you answer accurately, even without an explicit request. Explicit triggers: \"見せて\", \"読んで\", \"表示して\", \"開いて\", \"確認して\", \"中身は？\", \"show\", \"open\", \"read\", \"display\". Implicit triggers: user mentions a file path in conversation; you need the file content to answer a question about it; user says \"調べて\" / \"look into\" and a file or path is implied. Also ALWAYS call this before editing or modifying an existing file to retrieve its current content.\n[Out of scope] Does NOT modify or overwrite files (use write_file instead). Does NOT list directory contents (use list_directory instead). Do NOT call this tool with an unknown path — use list_directory or search_files first to resolve the absolute path.\n[Permissions] If read permission is missing, the app automatically shows a confirmation dialog to the user. If allowed, the file content is returned. If denied, an access-denied error is returned. No additional tool call is needed.\nExample: User says \"Show me C:/work/memo.txt\" → call with path=\"C:/work/memo.txt\".";

/// The JSON schema of the `read_file` tool's parameters.
pub const READ_FILE_SCHEMA: &'static str = "{\"type\":\"object\",\"properties\":{\"path\":{\"type\":\"string\",\"description\":\"Absolute path of the file to read. Pass the path exactly as the user provided — do NOT convert or normalize slashes. File name alone is not valid — a full absolute path is required. If the user refers to a file with a relative or ambiguous path, use list_directory or search_files to resolve the absolute path first.\"}},\"required\":[\"path\"]}";

/// The description of the `write_file` tool.
pub const WRITE_FILE_DESCRIPTION: &'static str = "[Purpose] Create a new file or completely overwrite an existing file at the specified path. Parent directories are created automatically if they do not exist.\n[When to use] When the user asks to create, save, write, update, edit, modify, or append to a file, or when you determine that writing a file is the appropriate action to fulfill the user's request even if they did not explicitly say \"write\" or \"save\".\n[Out of scope] The content field ALWAYS replaces the entire file — partial updates are not possible. When editing an existing file, ALWAYS call read_file first to get the current content, then pass the full updated content to this tool. Passing only the changed portion will erase everything else. Does NOT create directories alone (directories are only created as a side effect of writing a file).\n[Permissions] If write permission is missing, the app automatically shows a confirmation dialog to the user. If allowed, the file is written successfully. If denied, an access-denied error is returned. No additional tool call is needed.\nExample (new file): User says \"Create C:/work/hello.txt with the content Hello World\" → call with path=\"C:/work/hello.txt\", content=\"Hello World\".\nExample (edit existing): User says \"Change X in C:/work/config.txt\" → (1) call read_file(path=\"C:/work/config.txt\") to get the full current content → (2) build the fully updated content and call write_file(path=\"C:/work/config.txt\", content=<full updated content>).";

/// The JSON schema of the `write_file` tool's parameters.
pub const WRITE_FILE_SCHEMA: &'static str = "{\"type\":\"object\",\"properties\":{\"path\":{\"type\":\"string\",\"description\":\"Absolute path of the file to write. Pass the path exactly as the user provided — do NOT convert or normalize slashes. File name alone is not valid — a full absolute path is required. Non-existent parent directories are created automatically.\"},\"content\":{\"type\":\"string\",\"description\":\"The content to write to the file (UTF-8 text). This field completely replaces the entire file. When editing an existing file, always pass the full updated file content, not just the changed portion. Passing only the changed portion will erase everything else in the file.\"}},\"required\":[\"path\",\"content\"]}";

/// The description of the `list_directory` tool.
pub const LIST_DIRECTORY_DESCRIPTION: &'static str = "[Purpose] Return the names of files and subdirectories directly inside the specified directory (non-recursive).\n[When to use] HIGHEST PRIORITY: If the user's message contains a directory path, call this tool immediately as your first action — before responding or asking questions. Also use this when the user asks to list or show what is inside a folder, or when you need to discover what files exist before reading or writing them, even without an explicit \"list\" request.\n[Out of scope] Does NOT return file contents (use read_file for that). Does NOT recurse into subdirectories (use search_files for recursive search). Does NOT create or modify files.\n[Permissions] If read permission is missing, the app automatically shows a confirmation dialog to the user. If allowed, the listing is returned. If denied, an access-denied error is returned. No additional tool call is needed.\nExample: User says \"What files are in C:/work?\" → call with path=\"C:/work\". If the path is unknown, start from a known parent directory (e.g. C:/Users/user) and drill down.";

/// The JSON schema of the `list_directory` tool's parameters.
pub const LIST_DIRECTORY_SCHEMA: &'static str = "{\"type\":\"object\",\"properties\":{\"path\":{\"type\":\"string\",\"description\":\"Absolute path of the directory to list. Pass the path exactly as the user provided — do NOT convert or normalize slashes. Must be a directory path — do not pass a file path.\"}},\"required\":[\"path\"]}";

/// The description of the `search_files` tool.
pub const SEARCH_FILES_DESCRIPTION: &'static str = "[Purpose] Recursively search the specified directory and return absolute paths of all files whose names contain the given pattern as a substring.\n[When to use] When the user asks to find or locate a file by name, e.g. \"find all Python files under C:/work\", \"where is the file named config?\", \"list all .txt files in this folder\". Also use this proactively when the user mentions a file name without a full path — call this first to resolve the absolute path, then pass it to read_file.\n[Out of scope] Does NOT search file contents — only filters by file name (no grep-style content search). Does NOT return file contents (use read_file for that). Does NOT create or modify files.\n[Permissions] If read permission is missing, the app automatically shows a confirmation dialog to the user. If allowed, the results are returned. If denied, an access-denied error is returned. No additional tool call is needed.\nExample: User says \"Find all Python files under C:/work\" → call with path=\"C:/work\", pattern=\".py\". Pass the returned paths to read_file to read their contents.";

/// The JSON schema of the `search_files` tool's parameters.
pub const SEARCH_FILES_SCHEMA: &'static str = "{\"type\":\"object\",\"properties\":{\"path\":{\"type\":\"string\",\"description\":\"Absolute path of the directory to search recursively. Pass the path exactly as the user provided — do NOT convert or normalize slashes. Must be a directory path — do not pass a file path.\"},\"pattern\":{\"type\":\"string\",\"description\":\"Substring to match against file names (case-insensitive). No wildcards needed — the pattern is automatically matched as a substring. To filter by extension, include the dot (e.g. \\\".txt\\\", \\\".py\\\"). To filter by name, pass the partial name directly (e.g. \\\"readme\\\", \\\"config\\\"). Pass an empty string (\\\"\\\") to match all files.\"}},\"required\":[\"path\",\"pattern\"]}";

/// A file operation asked for by a tool call.
#[derive(Debug, Clone)]
pub enum FileOp {
    Read { path: String },
    Write { path: String, content: String },
    List { path: String },
    Search { path: String, pattern: String },
}

/// The error of a missing argument: `'{key}' パラメータが必要`.
pub open spec fn missing_arg_message(key: Seq<char>) -> Seq<char> {
    "'"@ + key + "' パラメータが必要"@
}

fn missing_arg(key: &str) -> (e: AppError)
    ensures
        e matches AppError::Plugin(m) && m@ == missing_arg_message(key@),
{
    let mut m = String::from_str("'");
    m.append(key);
    m.append("' パラメータが必要");
    AppError::Plugin(m)
}

/// The operation a call asks for, given the call's tool name and its string arguments `path`,
/// `content` and `pattern`: `read_file`, `list_directory` need a path; `write_file` a path then
/// content; `search_files` a path then a pattern. A missing argument, or an unknown tool, is
/// an error.
pub open spec fn file_op_spec(
    name: Seq<char>,
    path: Option<Seq<char>>,
    content: Option<Seq<char>>,
    pattern: Option<Seq<char>>,
    r: Result<FileOp, AppError>,
) -> bool {
    if name != "read_file"@ && name != "write_file"@ && name != "list_directory"@ && name
        != "search_files"@ {
        r matches Err(AppError::Plugin(m)) && m@ == "不明なツール: "@ + name
    } else if path is None {
        r matches Err(AppError::Plugin(m)) && m@ == missing_arg_message("path"@)
    } else if name == "write_file"@ && content is None {
        r matches Err(AppError::Plugin(m)) && m@ == missing_arg_message("content"@)
    } else if name == "search_files"@ && pattern is None {
        r matches Err(AppError::Plugin(m)) && m@ == missing_arg_message("pattern"@)
    } else {
        let p = path->0;
        match r {
            Ok(FileOp::Read { path: q }) => name == "read_file"@ && q@ == p,
            Ok(FileOp::Write { path: q, content: c }) => name == "write_file"@ && q@ == p && c@
                == content->0,
            Ok(FileOp::List { path: q }) => name == "list_directory"@ && q@ == p,
            Ok(FileOp::Search { path: q, pattern: t }) => name == "search_files"@ && q@ == p
                && t@ == pattern->0,
            Err(_) => false,
        }
    }
}

/// The operation a call asks for.
pub fn file_op(name: &str, path: Option<String>, content: Option<String>, pattern: Option<String>) -> (r:
    Result<FileOp, AppError>)
    ensures
        file_op_spec(name@, opt_text(path), opt_text(content), opt_text(pattern), r),
{
    proof {
        reveal_strlit("read_file");
        reveal_strlit("write_file");
        reveal_strlit("list_directory");
        reveal_strlit("search_files");
        reveal_strlit("path");
        reveal_strlit("content");
        reveal_strlit("pattern");
        assert("read_file"@.len() == 9 && "write_file"@.len() == 10 && "list_directory"@.len() == 14
            && "search_files"@.len() == 12);
    }
    let known = same_text(name, "read_file") || same_text(name, "write_file") || same_text(
        name,
        "list_directory",
    ) || same_text(name, "search_files");
    if !known {
        let mut m = String::from_str("不明なツール: ");
        m.append(name);
        return Err(AppError::Plugin(m));
    }
    let p = match path {
        Some(p) => p,
        None => {
            return Err(missing_arg("path"));
        },
    };
    if same_text(name, "read_file") {
        Ok(FileOp::Read { path: p })
    } else if same_text(name, "write_file") {
        match content {
            Some(c) => Ok(FileOp::Write { path: p, content: c }),
            None => Err(missing_arg("content")),
        }
    } else if same_text(name, "list_directory") {
        Ok(FileOp::List { path: p })
    } else {
        match pattern {
            Some(t) => Ok(FileOp::Search { path: p, pattern: t }),
            None => Err(missing_arg("pattern")),
        }
    }
}

/// The digit of a six-bit value in the standard base64 alphabet (RFC 4648): `A`-`Z`,
/// `a`-`z`, `0`-`9`, `+`, `/`.
pub open spec fn base64_digit(v: int) -> char {
    if v < 26 {
        (65 + v) as char
    } else if v < 52 {
        (97 + v - 26) as char
    } else if v < 62 {
        (48 + v - 52) as char
    } else if v == 62 {
        '+'
    } else {
        '/'
    }
}

/// The standard base64 encoding, with padding, of bytes (RFC 4648): each group of three bytes
/// becomes four digits; a last group of one or two bytes becomes two or three digits and
/// `=` padding.
pub open spec fn base64_standard(bytes: Seq<u8>) -> Seq<char>
    decreases bytes.len(),
{
    if bytes.len() == 0 {
        Seq::empty()
    } else if bytes.len() == 1 {
        let a = bytes[0] as int;
        seq![base64_digit(a / 4), base64_digit((a % 4) * 16), '=', '=']
    } else if bytes.len() == 2 {
        let a = bytes[0] as int;
        let b = bytes[1] as int;
        seq![base64_digit(a / 4), base64_digit((a % 4) * 16 + b / 16), base64_digit((b % 16) * 4), '=']
    } else {
        let a = bytes[0] as int;
        let b = bytes[1] as int;
        let c = bytes[2] as int;
        seq![
            base64_digit(a / 4),
            base64_digit((a % 4) * 16 + b / 16),
            base64_digit((b % 16) * 4 + c / 64),
            base64_digit(c % 64),
        ] + base64_standard(bytes.subrange(3, bytes.len() as int))
    }
}

/// Encodes bytes in base64 (`base64::engine::general_purpose::STANDARD.encode`).
///
/// Trusted: the `STANDARD` engine encodes with the standard alphabet and padding, as the
/// crate documents; that is `base64_standard`.
#[verifier::external_body]
fn base64_encode(bytes: &[u8]) -> (s: String)
    ensures
        s@ == base64_standard(bytes@),
{
    base64::Engine::encode(&base64::engine::general_purpose::STANDARD, bytes)
}

/// What reading an image file returns: `[IMAGE_BASE64]:` and the base64 of its bytes.
pub fn image_payload(bytes: &[u8]) -> (s: String)
    ensures
        s@ == "[IMAGE_BASE64]:"@ + base64_standard(bytes@),
{
    let mut s = String::from_str("[IMAGE_BASE64]:");
    let b = base64_encode(bytes);
    s.append(b.as_str());
    s
}

/// The text of a failed file-system operation: what was being done, then the system's error.
pub fn io_failure(what: &str, detail: &str) -> (m: String)
    ensures
        m@ == what@ + ": "@ + detail@,
{
    let mut m = String::from_str(what);
    m.append(": ");
    m.append(detail);
    m
}

/// What writing a file answers: `ファイルを書き込み完了: {path}`.
pub fn write_done_message(path: &str) -> (m: String)
    ensures
        m@ == "ファイルを書き込み完了: "@ + path@,
{
    concat2("ファイルを書き込み完了: ", path)
}

/// The error of a path that is not a directory.
pub fn not_a_directory(path: &str) -> (m: String)
    ensures
        m@ == "'"@ + path@ + "' はディレクトリではない"@,
{
    let mut m = String::from_str("'");
    m.append(path);
    m.append("' はディレクトリではない");
    m
}

/// One line of a directory listing: `[DIR] ` before the names of directories.
pub open spec fn listing_line(e: (Seq<char>, bool)) -> Seq<char> {
    if e.1 {
        "[DIR] "@ + e.0
    } else {
        e.0
    }
}

/// Lines joined by newlines.
pub open spec fn joined_lines(lines: Seq<Seq<char>>) -> Seq<char>
    decreases lines.len(),
{
    if lines.len() == 0 {
        Seq::empty()
    } else if lines.len() == 1 {
        lines[0]
    } else {
        joined_lines(lines.drop_last()) + "\n"@ + lines.last()
    }
}

/// Joins lines by newlines.
pub fn join_lines(lines: &[String]) -> (s: String)
    ensures
        s@ == joined_lines(lines@.map_values(|l: String| l@)),
{
    let ghost views = lines@.map_values(|l: String| l@);
    let mut s = String::new();
    let mut i: usize = 0;
    while i < lines.len()
        invariant
            i <= lines.len(),
            views == lines@.map_values(|l: String| l@),
            s@ == joined_lines(views.subrange(0, i as int)),
        decreases lines.len() - i,
    {
        assert(views.subrange(0, i + 1).drop_last() =~= views.subrange(0, i as int));
        if i > 0 {
            s.append("\n");
        }
        s.append(lines[i].as_str());
        proof {
            reveal_strlit("\n");
            if i == 0 {
                assert(s@ =~= joined_lines(views.subrange(0, 1)));
            }
        }
        i += 1;
    }
    assert(views.subrange(0, lines.len() as int) =~= views);
    s
}

/// A directory listing: one line per entry (name, whether it is a directory), in the order
/// given.
pub fn listing(entries: &[(String, bool)]) -> (s: String)
    ensures
        s@ == joined_lines(entries@.map_values(|e: (String, bool)| listing_line((e.0@, e.1)))),
{
    let mut lines: Vec<String> = Vec::new();
    let mut i: usize = 0;
    while i < entries.len()
        invariant
            i <= entries.len(),
            lines@.map_values(|l: String| l@) == entries@.subrange(0, i as int).map_values(
                |e: (String, bool)| listing_line((e.0@, e.1)),
            ),
        decreases entries.len() - i,
    {
        let line = if entries[i].1 {
            concat2("[DIR] ", entries[i].0.as_str())
        } else {
            entries[i].0.clone()
        };
        let ghost before = lines@;
        let ghost lv = line@;
        assert(lv == listing_line((entries@[i as int].0@, entries@[i as int].1)));
        lines.push(line);
        assert(lines@.map_values(|l: String| l@) =~= before.map_values(|l: String| l@).push(lv));
        assert(entries@.subrange(0, i + 1).map_values(|e: (String, bool)| listing_line((e.0@, e.1)))
            =~= entries@.subrange(0, i as int).map_values(
            |e: (String, bool)| listing_line((e.0@, e.1)),
        ).push(lv));
        i += 1;
    }
    assert(entries@.subrange(0, entries.len() as int) =~= entries@);
    join_lines(lines.as_slice())
}

/// Whether a file name matches a search pattern: it holds the pattern, both in lower case.
pub fn name_matches(file_name: &str, pattern: &str) -> (b: bool)
    ensures
        b == contains_seq(lowercase(file_name@), lowercase(pattern@)),
{
    let f = lowercased(file_name);
    let p = lowercased(pattern);
    if p.as_str().is_empty() {
        assert(p@.len() == 0);
        assert(f@.subrange(0, 0) =~= p@);
        assert(occurs_at(f@, p@, 0));
        return true;
    }
    contains_text(f.as_str(), p.as_str())
}

/// What a search answers: the matching paths, one per line, or that nothing matched.
pub fn search_report(pattern: &str, matches: &[String]) -> (s: String)
    ensures
        matches@.len() == 0 ==> s@ == "パターン '"@ + pattern@ + "' に一致するファイルなし"@,
        matches@.len() > 0 ==> s@ == joined_lines(matches@.map_values(|l: String| l@)),
{
    if matches.len() == 0 {
        let mut m = String::from_str("パターン '");
        m.append(pattern);
        m.append("' に一致するファイルなし");
        m
    } else {
        join_lines(matches)
    }
}

} // verus!
