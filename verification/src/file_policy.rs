//! What the Files browser may reach. A path that a client sends can never leave
//! the workspace, and never reaches the directories that are off limits.

use vstd::prelude::*;
use vstd::string::*;
use vstd::utf8::*;

use crate::error::{ApiError, bad_request, forbidden};
use crate::path_text::{
    component_texts, components, file_name, final_name, is_name, is_name_component, join,
    joined_path, lemma_component_chars,
};
use crate::text::{
    chars_of, concat3, contains_char, eq_ignore_ascii_case, join_texts, joined, lemma_reads_like,
    lemma_texts_push, lowered, reads_like, same_text, texts, trim, trimmed,
};

verus! {

/// Where uploads go by default.
pub const UPLOADS_DIR: &'static str = ".bettercoding-uploads";

/// Where uploads went in earlier versions.
pub const LEGACY_UPLOADS_DIR: &'static str = ".vibe-uploads";

/// How many entries a listing shows at most.
pub const MAX_LIST_ENTRIES: usize = 2000;

/// How large an uploaded file may be.
pub const MAX_UPLOAD_FILE_BYTES: u64 = 2147483648;

/// How large an upload may be altogether.
pub const MAX_UPLOAD_REQUEST_BYTES: u64 = 5368709120;

/// How many files an upload may hold.
pub const MAX_UPLOAD_FILES: usize = 50;

/// How long a file name may be, in bytes.
pub const MAX_FILENAME_LEN: usize = 255;

/// How many files an archive may hold.
pub const MAX_ZIP_ENTRIES: usize = 10000;

/// How large the contents of an archive may be.
pub const MAX_ZIP_UNCOMPRESSED_BYTES: u64 = 2147483648;

/// The names that are off limits, in any case of their letters.
pub open spec fn denied(name: Seq<char>) -> bool {
    lowered(name) == lowered(".git"@) || lowered(name) == lowered("node_modules"@)
}

/// Whether a component is off limits. Case does not count: on some file systems
/// `.Git` is `.git`.
pub fn is_denied_component(name: &str) -> (r: bool)
    ensures
        r == denied(name@),
{
    eq_ignore_ascii_case(name, ".git") || eq_ignore_ascii_case(name, "node_modules")
}

/// The names that a listing leaves out.
pub open spec fn hidden(name: Seq<char>) -> bool {
    name.len() > 0 && name[0] == '.' && name != UPLOADS_DIR@ && name != LEGACY_UPLOADS_DIR@
}

/// Whether a listing leaves a name out: those that start with a dot, but for
/// the directories that uploads go to.
pub fn is_hidden(name: &str) -> (r: bool)
    ensures
        r == hidden(name@),
{
    let chars = chars_of(name);
    chars.len() > 0 && chars[0] == '.' && !same_text(name, UPLOADS_DIR) && !same_text(
        name,
        LEGACY_UPLOADS_DIR,
    )
}

/// A component that a client may not send: the root, the parent directory, or a
/// name that is off limits.
pub open spec fn refused(c: Seq<char>) -> bool {
    c == seq!['/'] || c == seq!['.', '.'] || (is_name(c) && denied(c))
}

/// Whether component `k` is the first that is refused.
pub open spec fn first_refused(parts: Seq<Seq<char>>, k: int) -> bool {
    &&& 0 <= k < parts.len()
    &&& refused(parts[k])
    &&& forall|j: int| 0 <= j < k ==> !refused(#[trigger] parts[j])
}

/// Whether none is refused.
pub open spec fn none_refused(parts: Seq<Seq<char>>) -> bool {
    forall|j: int| 0 <= j < parts.len() ==> !refused(#[trigger] parts[j])
}

/// The names among components.
pub open spec fn names_of(parts: Seq<Seq<char>>) -> Seq<Seq<char>>
    decreases parts.len(),
{
    if parts.len() == 0 {
        Seq::empty()
    } else {
        let head = names_of(parts.drop_last());
        if is_name(parts.last()) {
            head.push(parts.last())
        } else {
            head
        }
    }
}

/// How a refused component is answered.
pub open spec fn refusal(c: Seq<char>, e: ApiError) -> bool {
    if is_name(c) {
        forbidden(e, "Access to '"@ + c + "' is not allowed"@)
    } else {
        bad_request(e, "Path traversal is not allowed"@)
    }
}

fn refusal_of(c: &str) -> (e: ApiError)
    ensures
        refusal(c@, e),
{
    if is_name_component(c) {
        ApiError::Forbidden(concat3("Access to '", c, "' is not allowed"))
    } else {
        ApiError::BadRequest("Path traversal is not allowed".to_owned())
    }
}

fn is_refused(c: &str) -> (r: bool)
    ensures
        r == refused(c@),
{
    proof {
        reveal_strlit("/");
        reveal_strlit("..");
        assert("/"@ =~= seq!['/']);
        assert(".."@ =~= seq!['.', '.']);
    }
    same_text(c, "/") || same_text(c, "..") || (is_name_component(c) && is_denied_component(c))
}

/// Cleans a relative path that a client sent: its names, with one separator
/// between each two. Absolute paths, steps upwards and names that are off
/// limits are refused; the first of them decides how.
pub fn validate_relative(rel: &str) -> (r: Result<String, ApiError>)
    ensures
        match r {
            Ok(clean) => none_refused(components(rel@)) && clean@ == joined(
                names_of(components(rel@)),
                "/"@,
            ),
            Err(e) => exists|k: int| #[trigger]
                first_refused(components(rel@), k) && refusal(components(rel@)[k], e),
        },
{
    let parts = component_texts(rel);
    let ghost all = components(rel@);
    let mut names: Vec<String> = Vec::new();
    proof {
        assert(texts(parts@).len() == parts@.len());
        assert(texts(names@) =~= Seq::<Seq<char>>::empty());
    }
    for i in 0..parts.len()
        invariant
            texts(parts@) == all,
            all == components(rel@),
            parts@.len() == all.len(),
            forall|j: int| 0 <= j < i ==> !refused(#[trigger] all[j]),
            texts(names@) == names_of(all.take(i as int)),
    {
        proof {
            assert(all[i as int] == parts@[i as int]@);
            assert(all.take(i + 1).drop_last() =~= all.take(i as int));
            assert(all.take(i + 1).last() == all[i as int]);
        }
        if is_refused(parts[i].as_str()) {
            let e = refusal_of(parts[i].as_str());
            proof {
                assert(first_refused(all, i as int));
            }
            return Err(e);
        }
        if is_name_component(parts[i].as_str()) {
            let name = parts[i].clone();
            proof {
                lemma_texts_push(names@, name);
            }
            names.push(name);
        }
    }
    proof {
        assert(all.take(all.len() as int) =~= all);
    }
    Ok(join_texts(&names, "/"))
}

/// The path to look up for a read of `rel` below `base`.
pub fn resolve_target(base: &str, rel: &str) -> (r: Result<String, ApiError>)
    ensures
        match r {
            Ok(path) => none_refused(components(rel@)) && path@ == joined_path(
                base@,
                joined(names_of(components(rel@)), "/"@),
            ),
            Err(e) => exists|k: int| #[trigger]
                first_refused(components(rel@), k) && refusal(components(rel@)[k], e),
        },
{
    match validate_relative(rel) {
        Ok(clean) => Ok(join(base, clean.as_str())),
        Err(e) => Err(e),
    }
}

/// A component of a path that the file system gave.
#[derive(Debug, PartialEq, Eq)]
pub enum PathPart {
    Text(String),
    /// A name that is no text.
    Bytes(Vec<u8>),
}

/// A component of a path that the file system gave.
pub ghost enum Part {
    Text(Seq<char>),
    Bytes(Seq<u8>),
}

impl View for PathPart {
    type V = Part;

    open spec fn view(&self) -> Part {
        match *self {
            PathPart::Text(t) => Part::Text(t@),
            PathPart::Bytes(b) => Part::Bytes(b@),
        }
    }
}

/// What following every link of a path came to.
#[derive(Debug, PartialEq, Eq)]
pub enum Canonical {
    /// There is no such file, or it cannot be reached.
    Missing,
    Path(String),
    /// A path that is no text, by its components; the root reads `/`.
    Parts(Vec<PathPart>),
}

/// The components that following the links of a path came to.
pub open spec fn parts(found: Canonical) -> Seq<Part> {
    match found {
        Canonical::Missing => Seq::empty(),
        Canonical::Path(path) => components(path@).map_values(|c: Seq<char>| Part::Text(c)),
        Canonical::Parts(list) => list@.map_values(|p: PathPart| p@),
    }
}

/// Whether the components of a path begin with those of `base`.
pub open spec fn within(path: Seq<Part>, base: Seq<Part>) -> bool {
    base.len() <= path.len() && path.take(base.len() as int) == base
}

/// A component that a link may not lead to: a name that is off limits, or one
/// that is no text and so cannot be told from these.
pub open spec fn offends(p: Part) -> bool {
    match p {
        Part::Text(c) => is_name(c) && denied(c),
        Part::Bytes(_) => true,
    }
}

/// How such a component is answered.
pub open spec fn offence(p: Part, e: ApiError) -> bool {
    match p {
        Part::Text(c) => refusal(c, e),
        Part::Bytes(_) => bad_request(e, "Invalid path encoding"@),
    }
}

/// Whether component `k` is the first that offends.
pub open spec fn first_offence(list: Seq<Part>, k: int) -> bool {
    &&& 0 <= k < list.len()
    &&& offends(list[k])
    &&& forall|j: int| 0 <= j < k ==> !offends(#[trigger] list[j])
}

/// Whether no component offends.
pub open spec fn none_offends(list: Seq<Part>) -> bool {
    forall|j: int| 0 <= j < list.len() ==> !offends(#[trigger] list[j])
}

/// The components of a path behind those of `base`.
pub open spec fn below(path: Canonical, base: Canonical) -> Seq<Part> {
    parts(path).skip(parts(base).len() as int)
}

/// Whether a path was found, below a base that was found too.
pub open spec fn found_within(target: Canonical, base: Canonical) -> bool {
    !(target is Missing) && !(base is Missing) && within(parts(target), parts(base))
}

/// Whether `r` is how a path is answered after every link in it was followed.
pub open spec fn checked_is(
    target: Canonical,
    base: Canonical,
    r: Result<Canonical, ApiError>,
) -> bool {
    if !found_within(target, base) {
        r == Err::<Canonical, _>(ApiError::NotFound)
    } else {
        match r {
            Ok(path) => path == target && none_offends(below(target, base)),
            Err(e) => exists|k: int| #[trigger]
                first_offence(below(target, base), k) && offence(below(target, base)[k], e),
        }
    }
}

fn copy_bytes(bytes: &Vec<u8>) -> (out: Vec<u8>)
    ensures
        out@ == bytes@,
{
    let mut out: Vec<u8> = Vec::new();
    for i in 0..bytes.len()
        invariant
            out@ == bytes@.take(i as int),
    {
        out.push(bytes[i]);
        proof {
            assert(bytes@.take(i + 1) =~= bytes@.take(i as int).push(bytes@[i as int]));
        }
    }
    proof {
        assert(bytes@.take(bytes@.len() as int) =~= bytes@);
    }
    out
}

fn parts_of(found: &Canonical) -> (out: Vec<PathPart>)
    ensures
        out@.map_values(|p: PathPart| p@) == parts(*found),
{
    let mut out: Vec<PathPart> = Vec::new();
    match found {
        Canonical::Missing => {},
        Canonical::Path(path) => {
            let list = component_texts(path.as_str());
            for i in 0..list.len()
                invariant
                    texts(list@) == components(path@),
                    out@.len() == i,
                    forall|j: int| 0 <= j < i ==> (#[trigger] out@[j])@ == Part::Text(list@[j]@),
            {
                out.push(PathPart::Text(list[i].clone()));
            }
            proof {
                assert(texts(list@).len() == list@.len());
                assert forall|j: int| 0 <= j < list@.len() implies (#[trigger] out@[j])@
                    == Part::Text(components(path@)[j]) by {
                    assert(texts(list@)[j] == list@[j]@);
                }
            }
        },
        Canonical::Parts(list) => {
            for i in 0..list.len()
                invariant
                    out@.len() == i,
                    forall|j: int| 0 <= j < i ==> (#[trigger] out@[j])@ == list@[j]@,
            {
                match &list[i] {
                    PathPart::Text(t) => out.push(PathPart::Text(t.clone())),
                    PathPart::Bytes(b) => out.push(PathPart::Bytes(copy_bytes(b))),
                }
            }
        },
    }
    proof {
        assert(out@.map_values(|p: PathPart| p@) =~= parts(*found));
    }
    out
}

fn same_bytes(a: &Vec<u8>, b: &Vec<u8>) -> (r: bool)
    ensures
        r == (a@ == b@),
{
    if a.len() != b.len() {
        return false;
    }
    for i in 0..a.len()
        invariant
            a@.len() == b@.len(),
            forall|j: int| 0 <= j < i ==> a@[j] == b@[j],
    {
        if a[i] != b[i] {
            return false;
        }
    }
    proof {
        assert(a@ =~= b@);
    }
    true
}

fn same_part(a: &PathPart, b: &PathPart) -> (r: bool)
    ensures
        r == (a@ == b@),
{
    match (a, b) {
        (PathPart::Text(x), PathPart::Text(y)) => same_text(x.as_str(), y.as_str()),
        (PathPart::Bytes(x), PathPart::Bytes(y)) => same_bytes(x, y),
        _ => false,
    }
}

fn offence_of(p: &PathPart) -> (e: Option<ApiError>)
    ensures
        match e {
            Some(e) => offends(p@) && offence(p@, e),
            None => !offends(p@),
        },
{
    match p {
        PathPart::Text(c) => {
            if is_name_component(c.as_str()) && is_denied_component(c.as_str()) {
                Some(refusal_of(c.as_str()))
            } else {
                None
            }
        },
        PathPart::Bytes(_) => Some(ApiError::BadRequest("Invalid path encoding".to_owned())),
    }
}

/// Checks a path after every link in it was followed: it has to lie below the
/// workspace, and must not have come to a name that is off limits or is no
/// text. What the workspace itself is called does not matter.
pub fn check_canonical(target: Canonical, base: &Canonical) -> (r: Result<Canonical, ApiError>)
    ensures
        checked_is(target, *base, r),
{
    match (&target, base) {
        (Canonical::Missing, _) => return Err(ApiError::NotFound),
        (_, Canonical::Missing) => return Err(ApiError::NotFound),
        _ => {},
    }
    let path_parts = parts_of(&target);
    let base_parts = parts_of(base);
    let ghost t = parts(target);
    let ghost b = parts(*base);
    let n: usize = base_parts.len();
    proof {
        assert(path_parts@.map_values(|p: PathPart| p@).len() == path_parts@.len());
        assert(base_parts@.map_values(|p: PathPart| p@).len() == n);
    }
    if path_parts.len() < n {
        return Err(ApiError::NotFound);
    }
    for i in 0..n
        invariant
            n <= path_parts@.len(),
            n == b.len(),
            t == parts(target),
            b == parts(*base),
            t == path_parts@.map_values(|p: PathPart| p@),
            b == base_parts@.map_values(|p: PathPart| p@),
            forall|j: int| 0 <= j < i ==> #[trigger] t[j] == b[j],
    {
        if !same_part(&path_parts[i], &base_parts[i]) {
            proof {
                assert(t[i as int] != b[i as int]);
                assert(t.take(n as int)[i as int] == t[i as int]);
            }
            return Err(ApiError::NotFound);
        }
        proof {
            assert(t[i as int] == path_parts@[i as int]@);
            assert(b[i as int] == base_parts@[i as int]@);
        }
    }
    proof {
        assert(t.take(n as int) =~= b);
    }
    let ghost rest = below(target, *base);
    for i in n..path_parts.len()
        invariant
            n <= path_parts@.len(),
            n == b.len(),
            b == parts(*base),
            t == parts(target),
            t == path_parts@.map_values(|p: PathPart| p@),
            found_within(target, *base),
            rest == below(target, *base),
            forall|j: int| 0 <= j < i - n ==> !offends(#[trigger] rest[j]),
    {
        proof {
            assert(rest[i - n] == path_parts@[i as int]@);
        }
        if let Some(e) = offence_of(&path_parts[i]) {
            proof {
                assert(first_offence(rest, i - n));
            }
            return Err(e);
        }
    }
    Ok(target)
}

/// Resolves a path for a read. `target` and `base` are what following the links
/// of [`resolve_target`]'s path and of the workspace came to.
pub fn resolve_existing_path(rel: &str, target: Canonical, base: &Canonical) -> (r: Result<
    Canonical,
    ApiError,
>)
    ensures
        if none_refused(components(rel@)) {
            checked_is(target, *base, r)
        } else {
            r is Err && exists|k: int| #[trigger]
                first_refused(components(rel@), k) && refusal(components(rel@)[k], r->Err_0)
        },
{
    match validate_relative(rel) {
        Ok(_) => check_canonical(target, base),
        Err(e) => Err(e),
    }
}

/// Resolves the directory that an upload goes to.
pub fn resolve_existing_dir(
    rel: &str,
    target: Canonical,
    base: &Canonical,
    is_dir: bool,
) -> (r: Result<Canonical, ApiError>)
    ensures
        if !none_refused(components(rel@)) {
            r is Err && exists|k: int| #[trigger]
                first_refused(components(rel@), k) && refusal(components(rel@)[k], r->Err_0)
        } else if !is_dir && checked_is(target, *base, Ok(target)) {
            r is Err && bad_request(r->Err_0, "Upload target is not a directory"@)
        } else {
            checked_is(target, *base, r)
        },
{
    match resolve_existing_path(rel, target, base) {
        Ok(path) => {
            if is_dir {
                Ok(path)
            } else {
                Err(ApiError::BadRequest("Upload target is not a directory".to_owned()))
            }
        },
        Err(e) => Err(e),
    }
}

/// A path that is let through lies below the workspace, and nothing on the way
/// from there is off limits, wherever its links lead.
pub proof fn law_accepted_path_stays_below(
    target: Canonical,
    base: Canonical,
    path: Canonical,
)
    requires
        checked_is(target, base, Ok(path)),
    ensures
        path == target,
        within(parts(path), parts(base)),
        forall|k: int|
            parts(base).len() <= k < parts(path).len() ==> ((#[trigger] parts(path)[k])
                matches Part::Text(c) && !(is_name(c) && denied(c))),
{
    assert forall|k: int| parts(base).len() <= k < parts(path).len() implies ((#[trigger] parts(
        path,
    )[k]) matches Part::Text(c) && !(is_name(c) && denied(c))) by {
        let rest = below(target, base);
        let j = k - parts(base).len();
        assert(rest[j] == parts(path)[k]);
        assert(!offends(rest[j]));
    }
}

/// Whether a file name is acceptable as it is, but for what is off limits.
pub open spec fn acceptable(base: Seq<char>) -> bool {
    &&& encode_utf8(base).len() <= MAX_FILENAME_LEN
    &&& !base.contains('\\')
    &&& !base.contains('\0')
}

/// Reduces a file name that a client sent to its last component. Whatever names
/// no file, is too long, or holds a backslash or a NUL is refused.
pub fn safe_basename(raw: &str) -> (r: Result<String, ApiError>)
    ensures
        match final_name(trimmed(raw@)) {
            None => r is Err && bad_request(r->Err_0, "Invalid file name"@),
            Some(base) => if !acceptable(base) {
                r is Err && bad_request(r->Err_0, "Invalid file name"@)
            } else if denied(base) {
                r is Err && forbidden(r->Err_0, "A file named '"@ + base + "' is not allowed"@)
            } else {
                r is Ok && r->Ok_0@ == base
            },
        },
{
    let clean = trim(raw);
    let base = match file_name(clean.as_str()) {
        Some(name) => name,
        None => return Err(ApiError::BadRequest("Invalid file name".to_owned())),
    };
    let n: usize = base.as_str().as_bytes().len();
    if n > MAX_FILENAME_LEN || contains_char(base.as_str(), '\\') || contains_char(
        base.as_str(),
        '\0',
    ) {
        return Err(ApiError::BadRequest("Invalid file name".to_owned()));
    }
    if is_denied_component(base.as_str()) {
        return Err(
            ApiError::Forbidden(concat3("A file named '", base.as_str(), "' is not allowed")),
        );
    }
    Ok(base)
}

proof fn lemma_name_of_path(s: Seq<char>)
    requires
        final_name(s) is Some,
    ensures
        final_name(s)->0.len() > 0,
        !final_name(s)->0.contains('/'),
        is_name(final_name(s)->0),
{
    lemma_component_chars(s, components(s).len() - 1);
}

/// An accepted file name is a single name: it is not empty, holds no separator
/// of any system, and is neither `.` nor `..`.
pub proof fn law_basename_is_one_name(raw: Seq<char>)
    requires
        final_name(trimmed(raw)) is Some,
        acceptable(final_name(trimmed(raw))->0),
    ensures
        ({
            let base = final_name(trimmed(raw))->0;
            &&& base.len() > 0
            &&& !base.contains('/')
            &&& !base.contains('\\')
            &&& is_name(base)
        }),
{
    lemma_name_of_path(trimmed(raw));
}

proof fn lemma_names_are_names(parts: Seq<Seq<char>>)
    ensures
        forall|i: int|
            0 <= i < names_of(parts).len() ==> is_name(#[trigger] names_of(parts)[i])
                && parts.contains(names_of(parts)[i]),
    decreases parts.len(),
{
    if parts.len() > 0 {
        let head = parts.drop_last();
        lemma_names_are_names(head);
        let all = names_of(parts);
        assert forall|i: int| 0 <= i < all.len() implies is_name(#[trigger] all[i])
            && parts.contains(all[i]) by {
            if i < names_of(head).len() {
                assert(names_of(head)[i] == all[i]);
                let k = choose|k: int| 0 <= k < head.len() && head[k] == all[i];
                assert(parts[k] == all[i]);
            } else {
                assert(parts[parts.len() - 1] == all[i]);
            }
        }
    }
}

/// A cleaned path never climbs: it is made of names alone, none of which is off
/// limits.
pub proof fn law_clean_path_stays_below(rel: Seq<char>, i: int)
    requires
        none_refused(components(rel)),
        0 <= i < names_of(components(rel)).len(),
    ensures
        ({
            let name = names_of(components(rel))[i];
            &&& is_name(name)
            &&& !denied(name)
            &&& !name.contains('/')
            &&& name.len() > 0
        }),
{
    lemma_names_are_names(components(rel));
    let name = names_of(components(rel))[i];
    let k = choose|k: int| 0 <= k < components(rel).len() && components(rel)[k] == name;
    assert(!refused(components(rel)[k]));
    lemma_component_chars(rel, k);
}

/// Off limits are `.git` and `node_modules`, however they are capitalised, and
/// nothing else.
pub proof fn law_off_limits_in_any_case(name: Seq<char>)
    ensures
        denied(name) <==> reads_like(name, ".git"@) || reads_like(name, "node_modules"@),
{
    reveal_strlit(".git");
    reveal_strlit("node_modules");
    lemma_reads_like(name, ".git"@);
    lemma_reads_like(name, "node_modules"@);
}

/// What a listing hides is what starts with a dot, but not where uploads go.
pub proof fn law_uploads_are_not_hidden(name: Seq<char>)
    ensures
        !hidden(".bettercoding-uploads"@),
        !hidden(".vibe-uploads"@),
        name.len() == 0 || name[0] != '.' ==> !hidden(name),
        name.len() > 0 && name[0] == '.' && name != ".bettercoding-uploads"@ && name
            != ".vibe-uploads"@ ==> hidden(name),
{
}

/// A path that a client sends is refused exactly where it starts at the root, steps
/// upwards, or names something that is off limits.
pub proof fn law_path_is_refused_for_a_reason(parts: Seq<Seq<char>>)
    ensures
        none_refused(parts) <==> forall|k: int|
            0 <= k < parts.len() ==> #[trigger] parts[k] != "/"@ && parts[k] != ".."@ && !denied(
                parts[k],
            ),
{
    reveal_strlit("/");
    reveal_strlit("..");
    reveal_strlit(".git");
    reveal_strlit("node_modules");
    assert("/"@ =~= seq!['/']);
    assert(".."@ =~= seq!['.', '.']);
    assert forall|c: Seq<char>| !is_name(c) implies !#[trigger] denied(c) by {
        assert(lowered(c).len() == c.len());
        assert(lowered(".git"@).len() == 4 && lowered("node_modules"@).len() == 12);
        assert(seq!['/'].len() == 1 && seq!['.'].len() == 1 && seq!['.', '.'].len() == 2);
    }
    assert forall|k: int| 0 <= k < parts.len() implies refused(#[trigger] parts[k]) == !(parts[k]
        != "/"@ && parts[k] != ".."@ && !denied(parts[k])) by {}
    if forall|k: int|
        0 <= k < parts.len() ==> #[trigger] parts[k] != "/"@ && parts[k] != ".."@ && !denied(
            parts[k],
        ) {
        assert(none_refused(parts));
    }
    if none_refused(parts) {
        assert forall|k: int| 0 <= k < parts.len() implies #[trigger] parts[k] != "/"@ && parts[k]
            != ".."@ && !denied(parts[k]) by {
            assert(!refused(parts[k]));
        }
    }
}

/// A cleaned path keeps every name, in order, and drops nothing but steps that stay
/// where they are.
pub proof fn law_clean_path_keeps_its_names(parts: Seq<Seq<char>>)
    ensures
        names_of(parts) == parts.filter(
            |c: Seq<char>| c != seq!['/'] && c != seq!['.'] && c != seq!['.', '.'],
        ),
    decreases parts.len(),
{
    reveal(Seq::filter);
    if parts.len() > 0 {
        law_clean_path_keeps_its_names(parts.drop_last());
    }
}

/// A path that leads below the workspace, and past nothing that is off limits or
/// no text, is let through as it is.
pub proof fn law_good_path_is_let_through(
    target: Canonical,
    base: Canonical,
    r: Result<Canonical, ApiError>,
)
    requires
        checked_is(target, base, r),
    ensures
        target is Missing || base is Missing ==> r == Err::<Canonical, _>(ApiError::NotFound),
        !(target is Missing) && !(base is Missing) ==> {
            let (t, b) = (parts(target), parts(base));
            let below_base = b.len() <= t.len() && forall|i: int|
                0 <= i < b.len() ==> #[trigger] t[i] == b[i];
            let good = forall|i: int|
                b.len() <= i < t.len() ==> ((#[trigger] t[i]) matches Part::Text(c) && !denied(c));
            &&& !below_base ==> r == Err::<Canonical, _>(ApiError::NotFound)
            &&& below_base && good ==> r == Ok::<Canonical, ApiError>(target)
            &&& below_base && !good ==> (r matches Err(e) && (e is Forbidden || e is BadRequest))
        },
{
    if !(target is Missing) && !(base is Missing) {
        let (t, b) = (parts(target), parts(base));
        let below_base = b.len() <= t.len() && forall|i: int|
            0 <= i < b.len() ==> #[trigger] t[i] == b[i];
        if below_base {
            assert(t.take(b.len() as int) =~= b);
        } else if b.len() <= t.len() && t.take(b.len() as int) == b {
            assert forall|i: int| 0 <= i < b.len() implies #[trigger] t[i] == b[i] by {
                assert(t.take(b.len() as int)[i] == t[i]);
            }
        }
        let rest = below(target, base);
        if below_base {
            reveal_strlit(".git");
            reveal_strlit("node_modules");
            assert forall|c: Seq<char>| !is_name(c) implies !#[trigger] denied(c) by {
                assert(lowered(c).len() == c.len());
                assert(lowered(".git"@).len() == 4 && lowered("node_modules"@).len() == 12);
                assert(seq!['/'].len() == 1 && seq!['.'].len() == 1 && seq!['.', '.'].len() == 2);
            }
            if r is Err {
                let k = choose|k: int| #[trigger]
                    first_offence(rest, k) && offence(rest[k], r->Err_0);
                assert(rest[k] == t[b.len() + k]);
            } else {
                assert forall|i: int| b.len() <= i < t.len() implies ((
                #[trigger] t[i]) matches Part::Text(c) && !denied(c)) by {
                    assert(rest[i - b.len()] == t[i]);
                    assert(!offends(rest[i - b.len()]));
                }
            }
        }
    }
}

/// A file name may be stored where it is at most 255 bytes long and holds neither a
/// backslash nor a NUL.
pub proof fn law_acceptable_names(base: Seq<char>)
    ensures
        acceptable(base) <==> encode_utf8(base).len() <= 255 && forall|i: int|
            0 <= i < base.len() ==> #[trigger] base[i] != '\\' && base[i] != '\0',
{
    if acceptable(base) {
        assert forall|i: int| 0 <= i < base.len() implies #[trigger] base[i] != '\\' && base[i]
            != '\0' by {
            assert(base.contains(base[i]));
        }
    }
}

} // verus!
