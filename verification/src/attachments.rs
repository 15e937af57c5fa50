//! References to attachments in a prompt: those that were imported from an
//! issue are made to point at the imported files.

use vstd::prelude::*;
use vstd::string::*;
use vstd::utf8::*;

use crate::foreign::{parse_uuid, uuid_parsed};
use crate::text::{
    begins_with, chars_of, is_blank, matches_at, opt_text, substring_of, trim, trimmed,
};

verus! {

/// An attachment of an issue that was imported, and the file that it became.
#[derive(Debug)]
pub struct ImportedIssueAttachment {
    pub attachment_id: u128,
    pub file_id: u128,
    pub file_path: String,
    pub original_name: String,
}

/// The prompt without white space around it, where it says anything.
pub fn normalize_prompt(prompt: &str) -> (r: Option<String>)
    ensures
        opt_text(r) == if trimmed(prompt@).len() > 0 {
            Some(trimmed(prompt@))
        } else {
            None
        },
{
    let clean = trim(prompt);
    if clean.as_str().is_empty() {
        None
    } else {
        Some(clean)
    }
}

/// The characters that have to be escaped in a label.
pub open spec fn special(c: char) -> bool {
    c == '[' || c == ']' || c == '\\'
}

/// A label with its special characters escaped.
pub open spec fn escaped(label: Seq<char>) -> Seq<char>
    decreases label.len(),
{
    if label.len() == 0 {
        Seq::empty()
    } else {
        let head = escaped(label.drop_last());
        if special(label.last()) {
            head.push('\\').push(label.last())
        } else {
            head.push(label.last())
        }
    }
}

/// A label with its special characters escaped.
pub fn escape_markdown_label(label: &str) -> (out: String)
    ensures
        out@ == escaped(label@),
{
    let chars = chars_of(label);
    let mut out = String::new();
    for i in 0..chars.len()
        invariant
            chars@ == label@,
            out@ == escaped(label@.take(i as int)),
    {
        proof {
            assert(label@.take(i + 1).drop_last() =~= label@.take(i as int));
            assert(label@.take(i + 1).last() == label@[i as int]);
        }
        let c = chars[i];
        if c == '[' || c == ']' || c == '\\' {
            out.push('\\');
        }
        out.push(c);
    }
    proof {
        assert(label@.take(label@.len() as int) =~= label@);
    }
    out
}

/// Where `target` is met at `i` or later without a backslash before it that
/// escapes it.
pub open spec fn unescaped_from(s: Seq<char>, i: int, target: char) -> Option<int>
    decreases s.len() - i,
{
    if i < 0 || i >= s.len() {
        None
    } else if s[i] == '\\' {
        if i + 2 > s.len() {
            None
        } else {
            unescaped_from(s, i + 2, target)
        }
    } else if s[i] == target {
        Some(i)
    } else {
        unescaped_from(s, i + 1, target)
    }
}

/// Where `target` is met at `from` or later, unescaped.
pub fn find_unescaped_from(chars: &Vec<char>, from: usize, target: char) -> (r: Option<usize>)
    requires
        from <= chars@.len(),
    ensures
        match unescaped_from(chars@, from as int, target) {
            Some(j) => r is Some && r->0 == j && from <= j < chars@.len(),
            None => r is None,
        },
{
    let n: usize = chars.len();
    let mut i: usize = from;
    while i < n
        invariant
            from <= i <= n,
            n == chars@.len(),
            unescaped_from(chars@, from as int, target) == unescaped_from(
                chars@,
                i as int,
                target,
            ),
        decreases n - i,
    {
        if chars[i] == '\\' {
            if n - i < 2 {
                return None;
            }
            i = i + 2;
        } else if chars[i] == target {
            return Some(i);
        } else {
            i = i + 1;
        }
    }
    None
}

/// Where `target` is first met in `haystack`, unescaped: how many bytes stand
/// before it.
pub fn find_unescaped_char(haystack: &str, target: char) -> (r: Option<usize>)
    ensures
        match unescaped_from(haystack@, 0, target) {
            Some(j) => r is Some && r->0 == encode_utf8(haystack@.take(j)).len(),
            None => r is None,
        },
{
    let chars = chars_of(haystack);
    match find_unescaped_from(&chars, 0, target) {
        Some(j) => {
            let before = substring_of(&chars, 0, j);
            proof {
                assert(before@ =~= haystack@.take(j as int));
            }
            Some(before.as_str().as_bytes().len())
        },
        None => None,
    }
}

/// Where `c` is first met at `i` or later; the length where it is not.
pub open spec fn char_from(s: Seq<char>, i: int, c: char) -> int
    decreases s.len() - i,
{
    if i < 0 || i >= s.len() {
        s.len() as int
    } else if s[i] == c {
        i
    } else {
        char_from(s, i + 1, c)
    }
}

proof fn lemma_char_from(s: Seq<char>, i: int, c: char)
    requires
        0 <= i <= s.len(),
    ensures
        i <= char_from(s, i, c) <= s.len(),
    decreases s.len() - i,
{
    if i < s.len() && s[i] != c {
        lemma_char_from(s, i + 1, c);
    }
}

proof fn lemma_unescaped_from(s: Seq<char>, i: int, target: char)
    requires
        0 <= i <= s.len(),
    ensures
        unescaped_from(s, i, target) matches Some(j) ==> i <= j < s.len() && s[j] == target,
    decreases s.len() - i,
{
    if i < s.len() {
        if s[i] == '\\' {
            if i + 2 <= s.len() {
                lemma_unescaped_from(s, i + 2, target);
            }
        } else if s[i] != target {
            lemma_unescaped_from(s, i + 1, target);
        }
    }
}

/// A reference to an attachment.
pub ghost struct Reference {
    pub id: u128,
    pub label: Seq<char>,
    pub image: bool,
    /// Where the text behind it starts.
    pub end: int,
}

/// The reference with the label that starts at `from`.
pub open spec fn reference_with_label(p: Seq<char>, from: int, image: bool) -> Option<Reference> {
    match unescaped_from(p, from, ']') {
        None => None,
        Some(close) => {
            let prefix = "(attachment://"@;
            let start = close + 1 + prefix.len();
            if !begins_with(p.subrange(close + 1, p.len() as int), prefix) {
                None
            } else {
                let stop = char_from(p, start, ')');
                if stop >= p.len() {
                    None
                } else {
                    match uuid_parsed(p.subrange(start, stop)) {
                        None => None,
                        Some(id) => Some(
                            Reference { id, label: p.subrange(from, close), image, end: stop + 1 },
                        ),
                    }
                }
            }
        },
    }
}

/// The reference that starts at `i`: a link or an image whose target is an
/// attachment.
pub open spec fn reference_at(p: Seq<char>, i: int) -> Option<Reference> {
    if i < 0 || i >= p.len() {
        None
    } else if begins_with(p.subrange(i, p.len() as int), "!["@) {
        reference_with_label(p, i + 2, true)
    } else if p[i] == '[' {
        reference_with_label(p, i + 1, false)
    } else {
        None
    }
}

/// The imported attachment with an identifier; the last where there are several.
pub open spec fn imported_with(list: Seq<ImportedIssueAttachment>, id: u128) -> Option<int>
    decreases list.len(),
{
    if list.len() == 0 {
        None
    } else if list.last().attachment_id == id {
        Some(list.len() - 1)
    } else {
        imported_with(list.drop_last(), id)
    }
}

/// How a reference to an imported file is written.
pub open spec fn file_reference(
    file: ImportedIssueAttachment,
    label: Seq<char>,
    image: bool,
) -> Seq<char> {
    let shown = if trimmed(label).len() == 0 {
        file.original_name@
    } else {
        label
    };
    (if image {
        "!["@
    } else {
        "["@
    }) + escaped(shown) + "](.vibe-attachments/"@ + file.file_path@ + ")"@
}

/// How a reference to an imported file is written. A blank label gives way to
/// the file's own name.
pub fn build_workspace_attachment_markdown(
    file: &ImportedIssueAttachment,
    label: &str,
    uses_image_markdown: bool,
) -> (out: String)
    ensures
        out@ == file_reference(*file, label@, uses_image_markdown),
{
    let shown = if is_blank(label) {
        escape_markdown_label(file.original_name.as_str())
    } else {
        escape_markdown_label(label)
    };
    let mut out = if uses_image_markdown {
        "![".to_owned()
    } else {
        "[".to_owned()
    };
    out.append(shown.as_str());
    out.append("](.vibe-attachments/");
    out.append(file.file_path.as_str());
    out.append(")");
    out
}

/// The prompt from `i` on, with its references to imported attachments
/// rewritten.
pub open spec fn rewritten_from(
    p: Seq<char>,
    i: int,
    list: Seq<ImportedIssueAttachment>,
) -> Seq<char>
    decreases p.len() - i,
{
    if i < 0 || i >= p.len() {
        Seq::empty()
    } else {
        proof {
            lemma_reference_ends(p, i);
        }
        match known_reference(p, i, list) {
            Some(r) => file_reference(
                list[imported_with(list, r.id)->0],
                r.label,
                r.image,
            ) + rewritten_from(p, r.end, list),
            None => seq![p[i]] + rewritten_from(p, i + 1, list),
        }
    }
}

/// The reference at `i`, where its attachment was imported.
pub open spec fn known_reference(
    p: Seq<char>,
    i: int,
    list: Seq<ImportedIssueAttachment>,
) -> Option<Reference> {
    match reference_at(p, i) {
        Some(r) => if imported_with(list, r.id) is Some {
            Some(r)
        } else {
            None
        },
        None => None,
    }
}

pub proof fn lemma_reference_ends(p: Seq<char>, i: int)
    requires
        0 <= i < p.len(),
    ensures
        reference_at(p, i) matches Some(r) ==> i < r.end <= p.len(),
{
    let from = if begins_with(p.subrange(i, p.len() as int), "!["@) {
        reveal_strlit("![");
        i + 2
    } else {
        i + 1
    };
    if from <= p.len() {
        lemma_unescaped_from(p, from, ']');
        if let Some(close) = unescaped_from(p, from, ']') {
            let start = close + 1 + "(attachment://"@.len();
            if start <= p.len() {
                lemma_char_from(p, start, ')');
            }
        }
    }
}

struct ParsedReference {
    id: u128,
    label: String,
    image: bool,
    end: usize,
}

spec fn parsed_is(parsed: Option<ParsedReference>, r: Option<Reference>) -> bool {
    match (parsed, r) {
        (None, None) => true,
        (Some(a), Some(b)) => a.id == b.id && a.label@ == b.label && a.image == b.image && a.end
            == b.end,
        _ => false,
    }
}

fn parse_with_label(chars: &Vec<char>, from: usize, image: bool) -> (r: Option<ParsedReference>)
    requires
        from <= chars@.len(),
    ensures
        parsed_is(r, reference_with_label(chars@, from as int, image)),
{
    let ghost p = chars@;
    let n: usize = chars.len();
    let close: usize = match find_unescaped_from(chars, from, ']') {
        Some(c) => c,
        None => return None,
    };
    if !matches_at(chars, close + 1, "(attachment://") {
        return None;
    }
    proof {
        reveal_strlit("(attachment://");
        assert("(attachment://"@.len() == 14);
        assert(p.subrange(close + 1, p.len() as int).len() >= 14);
    }
    let start: usize = close + 15;
    let mut stop: usize = start;
    while stop < n && chars[stop] != ')'
        invariant
            start <= stop <= n,
            n == chars@.len(),
            p == chars@,
            char_from(p, start as int, ')') == char_from(p, stop as int, ')'),
        decreases n - stop,
    {
        stop = stop + 1;
    }
    if stop == n {
        return None;
    }
    let id = match parse_uuid(substring_of(chars, start, stop).as_str()) {
        Some(id) => id,
        None => return None,
    };
    Some(ParsedReference { id, label: substring_of(chars, from, close), image, end: stop + 1 })
}

fn parse_reference(chars: &Vec<char>, at: usize) -> (r: Option<ParsedReference>)
    requires
        at < chars@.len(),
    ensures
        parsed_is(r, reference_at(chars@, at as int)),
{
    let n: usize = chars.len();
    proof {
        reveal_strlit("![");
        assert(n == chars@.len());
    }
    if matches_at(chars, at, "![") {
        proof {
            assert(chars@.subrange(at as int, n as int).len() >= 2);
        }
        parse_with_label(chars, at + 2, true)
    } else if chars[at] == '[' {
        parse_with_label(chars, at + 1, false)
    } else {
        None
    }
}

fn find_imported(list: &Vec<ImportedIssueAttachment>, id: u128) -> (r: Option<usize>)
    ensures
        match imported_with(list@, id) {
            Some(k) => r is Some && r->0 == k && 0 <= k < list@.len(),
            None => r is None,
        },
{
    let mut n: usize = list.len();
    proof {
        assert(list@.take(n as int) =~= list@);
    }
    while n > 0
        invariant
            n <= list@.len(),
            imported_with(list@, id) == imported_with(list@.take(n as int), id),
        decreases n,
    {
        proof {
            assert(list@.take(n as int).last() == list@[n - 1]);
            assert(list@.take(n as int).drop_last() =~= list@.take(n - 1));
        }
        if list[n - 1].attachment_id == id {
            return Some(n - 1);
        }
        n = n - 1;
    }
    None
}

/// Makes the references of a prompt to imported attachments point at the
/// imported files. Everything else stays as it is.
pub fn rewrite_imported_issue_attachments_markdown(
    prompt: &str,
    imported: &Vec<ImportedIssueAttachment>,
) -> (out: String)
    ensures
        out@ == rewritten_from(prompt@, 0, imported@),
{
    let chars = chars_of(prompt);
    let ghost p = prompt@;
    let n: usize = chars.len();
    let mut out = String::new();
    let mut i: usize = 0;
    proof {
        assert(out@ + rewritten_from(p, 0, imported@) =~= rewritten_from(p, 0, imported@));
    }
    while i < n
        invariant
            i <= n,
            n == chars@.len(),
            chars@ == p,
            out@ + rewritten_from(p, i as int, imported@) == rewritten_from(p, 0, imported@),
        decreases n - i,
    {
        proof {
            lemma_reference_ends(p, i as int);
        }
        let ghost before = out@;
        let parsed = parse_reference(&chars, i);
        let mut at: Option<usize> = None;
        if let Some(r) = &parsed {
            at = find_imported(imported, r.id);
        }
        match (parsed, at) {
            (Some(r), Some(k)) => {
                let text = build_workspace_attachment_markdown(
                    &imported[k],
                    r.label.as_str(),
                    r.image,
                );
                out.append(text.as_str());
                proof {
                    let known = known_reference(p, i as int, imported@);
                    assert(known is Some && known->0.end == r.end);
                    assert(rewritten_from(p, i as int, imported@) == text@ + rewritten_from(
                        p,
                        r.end as int,
                        imported@,
                    ));
                    assert(before + (text@ + rewritten_from(p, r.end as int, imported@)) =~= out@
                        + rewritten_from(p, r.end as int, imported@));
                }
                i = r.end;
            },
            _ => {
                out.push(chars[i]);
                proof {
                    assert(known_reference(p, i as int, imported@) is None);
                    assert(rewritten_from(p, i as int, imported@) == seq![p[i as int]]
                        + rewritten_from(p, i + 1, imported@));
                    assert(before + (seq![p[i as int]] + rewritten_from(p, i + 1, imported@))
                        =~= out@ + rewritten_from(p, i + 1, imported@));
                }
                i = i + 1;
            },
        }
    }
    proof {
        assert(out@ + rewritten_from(p, n as int, imported@) =~= out@);
    }
    out
}

/// A prompt without a reference to an imported attachment is left as it is.
pub proof fn law_unknown_references_stay(
    p: Seq<char>,
    i: int,
    list: Seq<ImportedIssueAttachment>,
)
    requires
        0 <= i <= p.len(),
        forall|k: int| i <= k < p.len() ==> #[trigger] known_reference(p, k, list) is None,
    ensures
        rewritten_from(p, i, list) == p.subrange(i, p.len() as int),
    decreases p.len() - i,
{
    if i < p.len() {
        assert(known_reference(p, i, list) is None);
        law_unknown_references_stay(p, i + 1, list);
        assert(seq![p[i]] + p.subrange(i + 1, p.len() as int) =~= p.subrange(i, p.len() as int));
    }
}

/// Where nothing was imported the prompt is left as it is.
pub proof fn law_nothing_imported_nothing_changed(p: Seq<char>)
    ensures
        rewritten_from(p, 0, Seq::empty()) == p,
{
    law_unknown_references_stay(p, 0, Seq::empty());
    assert(p.subrange(0, p.len() as int) =~= p);
}

proof fn lemma_escaped_prefix(label: Seq<char>, k: int)
    requires
        0 <= k <= label.len(),
    ensures
        escaped(label.take(k)).len() <= escaped(label).len(),
        escaped(label).subrange(0, escaped(label.take(k)).len() as int) == escaped(label.take(k)),
    decreases label.len(),
{
    if k < label.len() {
        let head = label.drop_last();
        assert(head.take(k) =~= label.take(k));
        lemma_escaped_prefix(head, k);
        assert(escaped(label).subrange(0, escaped(label.take(k)).len() as int) =~= escaped(
            head,
        ).subrange(0, escaped(label.take(k)).len() as int));
    } else {
        assert(label.take(k) =~= label);
        assert(escaped(label).subrange(0, escaped(label).len() as int) =~= escaped(label));
    }
}

proof fn lemma_label_closed_from(label: Seq<char>, rest: Seq<char>, k: int)
    requires
        0 <= k <= label.len(),
    ensures
        ({
            let s = escaped(label).push(']') + rest;
            unescaped_from(s, escaped(label.take(k)).len() as int, ']') == Some(
                escaped(label).len() as int,
            )
        }),
    decreases label.len() - k,
{
    let s = escaped(label).push(']') + rest;
    let at = escaped(label.take(k)).len() as int;
    if k == label.len() {
        assert(label.take(k) =~= label);
        assert(s[at] == ']');
    } else {
        lemma_label_closed_from(label, rest, k + 1);
        lemma_escaped_prefix(label, k + 1);
        let c = label[k];
        let here = label.take(k + 1);
        assert(here.drop_last() =~= label.take(k));
        assert(here.last() == c);
        let e = escaped(here);
        assert(escaped(label).subrange(0, e.len() as int) == e);
        assert forall|m: int| 0 <= m < e.len() implies s[m] == e[m] by {
            assert(escaped(label).subrange(0, e.len() as int)[m] == e[m]);
        }
        if special(c) {
            assert(e[at] == '\\');
            assert(e.len() == at + 2);
        } else {
            assert(e[at] == c);
            assert(e.len() == at + 1);
        }
    }
}

/// A label never ends its link early: the first unescaped bracket behind it is
/// the one that was put there, as many characters and as many bytes in as the
/// escaped label is long.
pub proof fn law_label_stays_inside(label: Seq<char>, rest: Seq<char>)
    ensures
        ({
            let e = escaped(label);
            let s = e.push(']') + rest;
            &&& unescaped_from(s, 0, ']') == Some(e.len() as int)
            &&& encode_utf8(s.take(e.len() as int)).len() == encode_utf8(e).len()
        }),
{
    lemma_label_closed_from(label, rest, 0);
    assert(label.take(0) =~= Seq::<char>::empty());
    assert(escaped(label.take(0)).len() == 0);
    let e = escaped(label);
    assert((e.push(']') + rest).take(e.len() as int) =~= e);
}

/// A label as it reads where it is shown: a backslash stands for nothing, and the
/// character behind it for itself.
pub open spec fn unescaped(s: Seq<char>) -> Seq<char>
    decreases s.len(),
{
    if s.len() == 0 {
        Seq::empty()
    } else if s[0] == '\\' && s.len() >= 2 {
        seq![s[1]] + unescaped(s.skip(2))
    } else {
        seq![s[0]] + unescaped(s.skip(1))
    }
}

proof fn lemma_escaped_from_front(label: Seq<char>)
    requires
        label.len() > 0,
    ensures
        escaped(label) == (if label[0] == '[' || label[0] == ']' || label[0] == '\\' {
            seq!['\\', label[0]]
        } else {
            seq![label[0]]
        }) + escaped(label.skip(1)),
    decreases label.len(),
{
    let first = if label[0] == '[' || label[0] == ']' || label[0] == '\\' {
        seq!['\\', label[0]]
    } else {
        seq![label[0]]
    };
    if label.len() == 1 {
        assert(label.drop_last() =~= Seq::<char>::empty());
        assert(label.skip(1) =~= Seq::<char>::empty());
        assert(escaped(label) =~= first + escaped(label.skip(1)));
    } else {
        lemma_escaped_from_front(label.drop_last());
        assert(label.drop_last().skip(1) =~= label.skip(1).drop_last());
        assert(escaped(label) =~= first + escaped(label.skip(1)));
    }
}

/// An escaped label reads as the label itself.
pub proof fn law_escaped_label_reads_as_the_label(label: Seq<char>)
    ensures
        unescaped(escaped(label)) == label,
        (forall|i: int| 0 <= i < label.len() ==> !special(#[trigger] label[i])) ==> escaped(label)
            == label,
    decreases label.len(),
{
    if label.len() > 0 {
        let rest = label.skip(1);
        lemma_escaped_from_front(label);
        law_escaped_label_reads_as_the_label(rest);
        let all = escaped(label);
        if label[0] == '[' || label[0] == ']' || label[0] == '\\' {
            assert(all.skip(2) =~= escaped(rest));
            assert(special(label[0]));
        } else {
            assert(all.skip(1) =~= escaped(rest));
            if forall|i: int| 0 <= i < label.len() ==> !special(#[trigger] label[i]) {
                assert forall|i: int| 0 <= i < rest.len() implies !special(#[trigger] rest[i]) by {
                    assert(rest[i] == label[i + 1]);
                }
                assert(all =~= label);
            }
        }
        assert(unescaped(all) =~= label);
    } else {
        assert(unescaped(escaped(label)) =~= label);
        assert(escaped(label) =~= label);
    }
}

/// Of several files that were imported for one attachment the last counts, and none
/// does where none was.
pub proof fn law_last_import_counts(list: Seq<ImportedIssueAttachment>, id: u128)
    ensures
        imported_with(list, id) matches Some(k) ==> 0 <= k < list.len() && list[k].attachment_id
            == id && forall|j: int|
            k < j < list.len() ==> (#[trigger] list[j]).attachment_id != id,
        imported_with(list, id) is None ==> forall|j: int|
            0 <= j < list.len() ==> (#[trigger] list[j]).attachment_id != id,
    decreases list.len(),
{
    if list.len() > 0 && list.last().attachment_id != id {
        law_last_import_counts(list.drop_last(), id);
        assert forall|j: int| 0 <= j < list.len() - 1 implies list.drop_last()[j]
            == #[trigger] list[j] by {}
    }
}

proof fn lemma_plain_until(s: Seq<char>, i: int, j: int, target: char)
    requires
        0 <= i <= j < s.len(),
        s[j] == target,
        target != '\\',
        forall|k: int| i <= k < j ==> #[trigger] s[k] != target && s[k] != '\\',
    ensures
        unescaped_from(s, i, target) == Some(j),
    decreases j - i,
{
    if i < j {
        assert(s[i] != target);
        lemma_plain_until(s, i + 1, j, target);
    }
}

proof fn lemma_char_at(s: Seq<char>, i: int, j: int, c: char)
    requires
        0 <= i <= j < s.len(),
        s[j] == c,
        forall|k: int| i <= k < j ==> #[trigger] s[k] != c,
    ensures
        char_from(s, i, c) == j,
    decreases j - i,
{
    if i < j {
        assert(s[i] != c);
        lemma_char_at(s, i + 1, j, c);
    }
}

/// A link or an image whose target is an attachment that was imported becomes one
/// whose target is the imported file. Its label stays, or is the file's own name
/// where it is blank, and the text behind it is rewritten in its turn.
pub proof fn law_reference_leads_to_the_imported_file(
    before: Seq<char>,
    image: bool,
    label: Seq<char>,
    target: Seq<char>,
    rest: Seq<char>,
    id: u128,
    list: Seq<ImportedIssueAttachment>,
    k: int,
)
    requires
        forall|i: int| 0 <= i < label.len() ==> #[trigger] label[i] != ']' && label[i] != '\\',
        forall|i: int| 0 <= i < target.len() ==> #[trigger] target[i] != ')',
        uuid_parsed(target) == Some(id),
        0 <= k < list.len(),
        list[k].attachment_id == id,
        forall|j: int| k < j < list.len() ==> (#[trigger] list[j]).attachment_id != id,
    ensures
        ({
            let mark = if image {
                "!["@
            } else {
                "["@
            };
            let p = before + mark + label + "](attachment://"@ + target + ")"@ + rest;
            let shown = if trimmed(label).len() == 0 {
                list[k].original_name@
            } else {
                label
            };
            rewritten_from(p, before.len() as int, list) == mark + escaped(shown)
                + "](.vibe-attachments/"@ + list[k].file_path@ + ")"@ + rewritten_from(
                p,
                p.len() - rest.len(),
                list,
            )
        }),
{
    let mark = if image {
        "!["@
    } else {
        "["@
    };
    let p = before + mark + label + "](attachment://"@ + target + ")"@ + rest;
    let i = before.len() as int;
    reveal_strlit("![");
    reveal_strlit("[");
    reveal_strlit("](attachment://");
    reveal_strlit("(attachment://");
    reveal_strlit(")");
    let tail = p.subrange(i, p.len() as int);
    let from = i + mark.len();
    let close = from + label.len();
    let start = close + 15;
    let stop = start + target.len();
    assert(p[i] == mark[0]);
    if image {
        assert(p[i + 1] == mark[1]);
        assert(tail.subrange(0, 2) =~= "!["@) by {
            assert(tail[0] == '!' && tail[1] == '[');
        }
    } else {
        assert(!begins_with(tail, "!["@)) by {
            if begins_with(tail, "!["@) {
                assert(tail.subrange(0, 2)[0] == tail[0]);
            }
        }
    }
    assert forall|x: int| from <= x < close implies #[trigger] p[x] != ']' && p[x] != '\\' by {
        assert(p[x] == label[x - from]);
    }
    assert(p[close] == ']');
    lemma_plain_until(p, from, close, ']');
    let behind = p.subrange(close + 1, p.len() as int);
    assert("(attachment://"@.len() == 14);
    assert(behind.subrange(0, 14) =~= "(attachment://"@) by {
        assert forall|x: int| 0 <= x < 14 implies behind[x] == "(attachment://"@[x] by {
            assert(behind[x] == p[close + 1 + x]);
            assert(p[close + 1 + x] == "](attachment://"@[x + 1]);
        }
    }
    assert forall|x: int| start <= x < stop implies #[trigger] p[x] != ')' by {
        assert(p[x] == target[x - start]);
    }
    assert(p[stop] == ')');
    lemma_char_at(p, start, stop, ')');
    assert(p.subrange(start, stop) =~= target);
    assert(p.subrange(from, close) =~= label);
    assert(reference_at(p, i) == Some(Reference { id, label, image, end: stop + 1 }));
    law_last_import_counts(list, id);
    assert(imported_with(list, id) == Some(k));
    assert(stop + 1 == p.len() - rest.len());
    lemma_reference_ends(p, i);
}

/// Whatever does not start a link or an image is kept as it is.
pub proof fn law_plain_text_is_kept(
    p: Seq<char>,
    i: int,
    list: Seq<ImportedIssueAttachment>,
)
    requires
        0 <= i < p.len(),
        p[i] != '[' && p[i] != '!',
    ensures
        rewritten_from(p, i, list) == seq![p[i]] + rewritten_from(p, i + 1, list),
{
    reveal_strlit("![");
    let tail = p.subrange(i, p.len() as int);
    if begins_with(tail, "!["@) {
        assert(tail.subrange(0, 2)[0] == tail[0]);
    }
}

} // verus!
