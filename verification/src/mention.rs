//! Group references in announcement text and their replacement by mention
//! tokens.

use vstd::prelude::*;
use vstd::string::*;
use vstd::utf8::*;
use crate::pattern::{find_all, regex_matches, spans_in_order};
use crate::text::{
    append_text, contains_char, lemma_valid_between, lowercase_text, slice_between, to_lowercase,
};

verus! {

/// Something that can be mentioned: the name it is shown under and the token
/// that mentions it in outgoing text.
#[derive(Clone, Debug, PartialEq, Eq)]
pub struct MentionTarget {
    pub display_name: String,
    pub token: String,
}

/// A mention target as plain text.
pub struct TargetText {
    pub display_name: Seq<char>,
    pub token: Seq<char>,
}

impl View for MentionTarget {
    type V = TargetText;

    open spec fn view(&self) -> TargetText {
        TargetText { display_name: self.display_name@, token: self.token@ }
    }
}

/// The views of a list of targets.
pub open spec fn target_texts(targets: Seq<MentionTarget>) -> Seq<TargetText> {
    targets.map_values(|t: MentionTarget| t@)
}

/// A copy of a list of targets.
pub fn clone_targets(targets: &Vec<MentionTarget>) -> (out: Vec<MentionTarget>)
    ensures
        target_texts(out@) == target_texts(targets@),
{
    let mut out: Vec<MentionTarget> = Vec::new();
    let mut i: usize = 0;
    while i < targets.len()
        invariant
            i <= targets@.len(),
            out@.len() == i,
            forall|k: int| 0 <= k < i ==> out@[k]@ == targets@[k]@,
        decreases targets@.len() - i,
    {
        out.push(
            MentionTarget {
                display_name: targets[i].display_name.clone(),
                token: targets[i].token.clone(),
            },
        );
        i += 1;
    }
    assert(target_texts(out@) =~= target_texts(targets@));
    out
}

/// What a group reference says: the year digit and the one or two letters
/// that follow it.
#[derive(Clone, Copy, Debug, PartialEq, Eq, Structural)]
pub struct GroupRef {
    pub digit: u8,
    pub first: u8,
    pub second: Option<u8>,
}

/// A digit from 1 to 4.
pub open spec fn is_year_digit(b: u8) -> bool {
    0x31 <= b <= 0x34
}

/// A letter from A to Z, of either case.
pub open spec fn is_letter(b: u8) -> bool {
    (0x41 <= b <= 0x5a) || (0x61 <= b <= 0x7a)
}

/// Number of letters at the head of a reference: two where the byte after the
/// first letter is a letter too, else one.
pub open spec fn letter_count(text: Seq<u8>) -> int {
    if text.len() > 2 && is_letter(text[2]) {
        2
    } else {
        1
    }
}

/// Whether `text` is, as a whole, a group reference: a digit from 1 to 4, one
/// or two letters, at most one space, and a hyphen.
pub open spec fn is_group_ref(text: Seq<u8>) -> bool {
    let after = 1 + letter_count(text);
    &&& text.len() >= 3
    &&& is_year_digit(text[0])
    &&& is_letter(text[1])
    &&& {
        ||| text.len() == after + 1 && text[after] == 0x2d
        ||| text.len() == after + 2 && text[after] == 0x20 && text[after + 1] == 0x2d
    }
}

/// The digit and letters of `text` where it is a group reference.
pub open spec fn group_ref_of(text: Seq<u8>) -> Option<GroupRef> {
    if is_group_ref(text) {
        Some(
            GroupRef {
                digit: text[0],
                first: text[1],
                second: if letter_count(text) == 2 {
                    Some(text[2])
                } else {
                    None
                },
            },
        )
    } else {
        None
    }
}

fn year_digit(b: u8) -> (r: bool)
    ensures
        r == is_year_digit(b),
{
    0x31 <= b && b <= 0x34
}

fn letter(b: u8) -> (r: bool)
    ensures
        r == is_letter(b),
{
    (0x41 <= b && b <= 0x5a) || (0x61 <= b && b <= 0x7a)
}

/// Reads `text` as a group reference.
pub fn parse_group_ref(text: &[u8]) -> (out: Option<GroupRef>)
    ensures
        out == group_ref_of(text@),
{
    let n = text.len();
    if n < 3 || !year_digit(text[0]) || !letter(text[1]) {
        return None;
    }
    let two = letter(text[2]);
    let after: usize = if two {
        3
    } else {
        2
    };
    let closed = (n == after + 1 && text[after] == 0x2d) || (n == after + 2 && text[after] == 0x20
        && text[after + 1] == 0x2d);
    if !closed {
        return None;
    }
    Some(
        GroupRef {
            digit: text[0],
            first: text[1],
            second: if two {
                Some(text[2])
            } else {
                None
            },
        },
    )
}

/// The lower-case form of a letter from A to Z; any other byte is itself.
pub open spec fn lower_letter(b: u8) -> u8 {
    if 0x41 <= b <= 0x5a {
        (b + 0x20) as u8
    } else {
        b
    }
}

/// Computes `lower_letter`.
pub fn to_lower_letter(b: u8) -> (out: u8)
    ensures
        out == lower_letter(b),
{
    if 0x41 <= b && b <= 0x5a {
        b + 0x20
    } else {
        b
    }
}

/// Whether a target answers to a reference, whatever the case of either: its
/// display name has exactly two characters, and its lower-case form holds
/// the digit and the lower-case form of at least one of the letters.
pub open spec fn target_matches(display_name: Seq<char>, r: GroupRef) -> bool {
    let lowered = lowercase_text(display_name);
    &&& display_name.len() == 2
    &&& lowered.contains(r.digit as char)
    &&& (lowered.contains(lower_letter(r.first) as char) || (r.second is Some && lowered.contains(
        lower_letter(r.second->0) as char,
    )))
}

/// Decides `target_matches` for one target.
pub fn matches_target(target: &MentionTarget, r: &GroupRef) -> (out: bool)
    ensures
        out == target_matches(target@.display_name, *r),
{
    if target.display_name.as_str().unicode_len() != 2 {
        return false;
    }
    let lowered = to_lowercase(target.display_name.as_str());
    if !contains_char(lowered.as_str(), r.digit as char) {
        return false;
    }
    if contains_char(lowered.as_str(), to_lower_letter(r.first) as char) {
        return true;
    }
    match r.second {
        Some(b) => contains_char(lowered.as_str(), to_lower_letter(b) as char),
        None => false,
    }
}

/// Whether any target answers to the reference.
pub open spec fn resolves(targets: Seq<TargetText>, r: GroupRef) -> bool {
    exists|i: int| 0 <= i < targets.len() && target_matches(#[trigger] targets[i].display_name, r)
}

/// The tokens of the targets that answer to the reference, in list order, as
/// bytes.
pub open spec fn resolved_tokens(targets: Seq<TargetText>, r: GroupRef) -> Seq<u8>
    decreases targets.len(),
{
    if targets.len() == 0 {
        Seq::empty()
    } else {
        resolved_tokens(targets.drop_last(), r) + if target_matches(
            targets.last().display_name,
            r,
        ) {
            encode_utf8(targets.last().token)
        } else {
            Seq::empty()
        }
    }
}

/// Collects the tokens of the targets that answer to `r`; `None` where none
/// does.
pub fn resolve(targets: &Vec<MentionTarget>, r: &GroupRef) -> (out: Option<String>)
    ensures
        out is Some == resolves(target_texts(targets@), *r),
        out is Some ==> encode_utf8(out->0@) == resolved_tokens(target_texts(targets@), *r),
{
    let ghost texts = target_texts(targets@);
    let mut tokens = String::new();
    let mut any = false;
    let mut i: usize = 0;
    while i < targets.len()
        invariant
            texts == target_texts(targets@),
            i <= targets.len(),
            any == resolves(texts.take(i as int), *r),
            encode_utf8(tokens@) == resolved_tokens(texts.take(i as int), *r),
        decreases targets.len() - i,
    {
        let ghost before = texts.take(i as int);
        let ghost after = texts.take(i + 1);
        proof {
            assert(after.drop_last() =~= before);
            assert(after.last() == texts[i as int]);
            assert(texts[i as int] == targets@[i as int]@);
        }
        if matches_target(&targets[i], r) {
            append_text(&mut tokens, targets[i].token.as_str());
            any = true;
            proof {
                assert(target_matches(after[i as int].display_name, *r));
            }
        } else {
            proof {
                assert(resolved_tokens(after, *r) =~= resolved_tokens(before, *r));
                if resolves(after, *r) {
                    let k = choose|k: int|
                        0 <= k < after.len() && target_matches(
                            #[trigger] after[k].display_name,
                            *r,
                        );
                    assert(before[k] == after[k]);
                }
            }
        }
        proof {
            if resolves(before, *r) {
                let k = choose|k: int|
                    0 <= k < before.len() && target_matches(#[trigger] before[k].display_name, *r);
                assert(after[k] == before[k]);
            }
        }
        i += 1;
    }
    proof {
        assert(texts.take(targets.len() as int) =~= texts);
    }
    if any {
        Some(tokens)
    } else {
        None
    }
}

/// The bytes of `bytes` that a span covers.
pub open spec fn span_text(bytes: Seq<u8>, span: (usize, usize)) -> Seq<u8> {
    bytes.subrange(span.0 as int, span.1 as int)
}

/// What stands in place of a matched text: the tokens of the targets that
/// answer to it, or the text itself where it is no group reference or no
/// target answers.
pub open spec fn replacement(text: Seq<u8>, targets: Seq<TargetText>) -> Seq<u8> {
    match group_ref_of(text) {
        Some(r) => if resolves(targets, r) {
            resolved_tokens(targets, r)
        } else {
            text
        },
        None => text,
    }
}

/// What a matched text adds to the list of mentions.
pub open spec fn mention_of(text: Seq<u8>, targets: Seq<TargetText>) -> Seq<u8> {
    match group_ref_of(text) {
        Some(r) => if resolves(targets, r) {
            resolved_tokens(targets, r)
        } else {
            Seq::empty()
        },
        None => Seq::empty(),
    }
}

/// Offset in the line up to which the first `k` spans reach.
pub open spec fn covered(spans: Seq<(usize, usize)>, k: nat) -> int {
    if k == 0 {
        0
    } else {
        spans[k - 1].1 as int
    }
}

/// The rewritten form of the line up to the end of the `k`-th span: each
/// stretch between spans as it is, each span replaced.
pub open spec fn rewritten_prefix(
    bytes: Seq<u8>,
    spans: Seq<(usize, usize)>,
    targets: Seq<TargetText>,
    k: nat,
) -> Seq<u8>
    decreases k,
{
    if k == 0 {
        Seq::empty()
    } else {
        rewritten_prefix(bytes, spans, targets, (k - 1) as nat) + bytes.subrange(
            covered(spans, (k - 1) as nat),
            spans[k - 1].0 as int,
        ) + replacement(span_text(bytes, spans[k - 1]), targets)
    }
}

/// The mentions that the first `k` spans give, in order.
pub open spec fn mentions_prefix(
    bytes: Seq<u8>,
    spans: Seq<(usize, usize)>,
    targets: Seq<TargetText>,
    k: nat,
) -> Seq<u8>
    decreases k,
{
    if k == 0 {
        Seq::empty()
    } else {
        mentions_prefix(bytes, spans, targets, (k - 1) as nat) + mention_of(
            span_text(bytes, spans[k - 1]),
            targets,
        )
    }
}

/// The line with every span replaced.
pub open spec fn rewritten_line(
    bytes: Seq<u8>,
    spans: Seq<(usize, usize)>,
    targets: Seq<TargetText>,
) -> Seq<u8> {
    rewritten_prefix(bytes, spans, targets, spans.len()) + bytes.subrange(
        covered(spans, spans.len()),
        bytes.len() as int,
    )
}

/// The mentions that the spans of a line give.
pub open spec fn line_mentions(
    bytes: Seq<u8>,
    spans: Seq<(usize, usize)>,
    targets: Seq<TargetText>,
) -> Seq<u8> {
    mentions_prefix(bytes, spans, targets, spans.len())
}

/// Rewrites `line` at the given spans and appends the tokens used to
/// `mentions`.
pub fn rewrite_spans(
    line: &str,
    spans: &Vec<(usize, usize)>,
    targets: &Vec<MentionTarget>,
    mentions: &mut String,
) -> (out: String)
    requires
        spans_in_order(encode_utf8(line@), spans@),
    ensures
        encode_utf8(out@) == rewritten_line(encode_utf8(line@), spans@, target_texts(targets@)),
        encode_utf8(final(mentions)@) == encode_utf8(old(mentions)@) + line_mentions(
            encode_utf8(line@),
            spans@,
            target_texts(targets@),
        ),
{
    let ghost bytes = encode_utf8(line@);
    let ghost texts = target_texts(targets@);
    let ghost found = encode_utf8(mentions@);
    proof {
        encode_utf8_valid_utf8(line@);
        is_char_boundary_start_end_of_seq(bytes);
    }
    let mut out = String::new();
    let mut cursor: usize = 0;
    let mut k: usize = 0;
    while k < spans.len()
        invariant
            bytes == encode_utf8(line@),
            bytes == line.spec_bytes(),
            valid_utf8(bytes),
            texts == target_texts(targets@),
            spans_in_order(bytes, spans@),
            k <= spans.len(),
            cursor == covered(spans@, k as nat),
            cursor <= bytes.len(),
            is_char_boundary(bytes, cursor as int),
            encode_utf8(out@) == rewritten_prefix(bytes, spans@, texts, k as nat),
            encode_utf8(mentions@) == found + mentions_prefix(bytes, spans@, texts, k as nat),
        decreases spans.len() - k,
    {
        let (start, end) = spans[k];
        proof {
            assert(spans@[k as int] == (start, end));
            if k > 0 {
                assert(spans@[k - 1].1 <= spans@[k as int].0);
            }
        }
        let gap = slice_between(line, cursor, start);
        let text = slice_between(line, start, end);
        append_text(&mut out, gap);
        let resolved = match parse_group_ref(text.as_bytes()) {
            Some(r) => resolve(targets, &r),
            None => None,
        };
        match resolved {
            Some(tokens) => {
                append_text(&mut out, tokens.as_str());
                append_text(mentions, tokens.as_str());
            },
            None => {
                append_text(&mut out, text);
                proof {
                    assert(mention_of(span_text(bytes, spans@[k as int]), texts) =~= Seq::<
                        u8,
                    >::empty());
                    assert(encode_utf8(mentions@) =~= found + mentions_prefix(
                        bytes,
                        spans@,
                        texts,
                        (k + 1) as nat,
                    ));
                }
            },
        }
        cursor = end;
        k += 1;
    }
    proof {
        is_char_boundary_start_end_of_seq(bytes);
    }
    let tail = slice_between(line, cursor, line.as_bytes().len());
    append_text(&mut out, tail);
    out
}

/// The pattern of a group reference.
pub open spec fn group_ref_pattern() -> Seq<char> {
    "[1-4][a-zA-Z][a-zA-Z]?( )?-"@
}

/// Where the group references of a line stand: the matches of the pattern,
/// or none where the search could not be made or its matches do not lie in
/// order inside the line.
pub open spec fn line_spans(line: Seq<u8>) -> Seq<(usize, usize)> {
    match regex_matches(group_ref_pattern(), decode_utf8(line)) {
        Some(spans) => if spans_in_order(line, spans) {
            spans
        } else {
            Seq::empty()
        },
        None => Seq::empty(),
    }
}

/// Rewrites one line: each group reference that a target answers to gives
/// way to the tokens of those targets, which are also appended to
/// `mentions`; the rest of the line stays.
pub fn rewrite_line(line: &str, targets: &Vec<MentionTarget>, mentions: &mut String) -> (out:
    String)
    ensures
        encode_utf8(out@) == rewritten_line(
            encode_utf8(line@),
            line_spans(encode_utf8(line@)),
            target_texts(targets@),
        ),
        encode_utf8(final(mentions)@) == encode_utf8(old(mentions)@) + line_mentions(
            encode_utf8(line@),
            line_spans(encode_utf8(line@)),
            target_texts(targets@),
        ),
{
    proof {
        encode_utf8_decode_utf8(line@);
    }
    let spans = match find_all("[1-4][a-zA-Z][a-zA-Z]?( )?-", line) {
        Some(spans) => spans,
        None => Vec::new(),
    };
    rewrite_spans(line, &spans, targets, mentions)
}

/// Length of the first line of `bytes`: the offset of its first line feed, or
/// its length where it has none.
pub open spec fn first_newline(bytes: Seq<u8>) -> int
    decreases bytes.len(),
{
    if bytes.len() == 0 || bytes[0] == 0x0a {
        0
    } else {
        1 + first_newline(bytes.drop_first())
    }
}

/// The first line ends at the first line feed, or at the end where there is
/// none.
pub proof fn lemma_first_newline(bytes: Seq<u8>, n: int)
    requires
        0 <= n <= bytes.len(),
        forall|j: int| 0 <= j < n ==> bytes[j] != 0x0a,
        n < bytes.len() ==> bytes[n] == 0x0a,
    ensures
        first_newline(bytes) == n,
    decreases bytes.len(),
{
    if n > 0 {
        lemma_first_newline(bytes.drop_first(), n - 1);
    }
}

/// Finds the end of the first line.
pub fn newline_offset(bytes: &[u8]) -> (n: usize)
    ensures
        n == first_newline(bytes@),
        n <= bytes@.len(),
        n < bytes@.len() ==> bytes@[n as int] == 0x0a,
{
    let mut n: usize = 0;
    while n < bytes.len() && bytes[n] != 0x0a
        invariant
            n <= bytes@.len(),
            forall|j: int| 0 <= j < n ==> bytes@[j] != 0x0a,
        decreases bytes@.len() - n,
    {
        n += 1;
    }
    proof {
        lemma_first_newline(bytes@, n as int);
    }
    n
}

/// The content rewritten line by line; lines end at a line feed, which
/// stays where it was.
pub open spec fn rewritten_content(bytes: Seq<u8>, targets: Seq<TargetText>) -> Seq<u8>
    decreases bytes.len(),
{
    let n = first_newline(bytes);
    let line = bytes.subrange(0, n);
    let head = rewritten_line(line, line_spans(line), targets);
    if 0 <= n < bytes.len() {
        head + seq![0x0au8] + rewritten_content(bytes.subrange(n + 1, bytes.len() as int), targets)
    } else {
        head
    }
}

/// The mentions of all lines of the content, in order.
pub open spec fn content_mentions(bytes: Seq<u8>, targets: Seq<TargetText>) -> Seq<u8>
    decreases bytes.len(),
{
    let n = first_newline(bytes);
    let line = bytes.subrange(0, n);
    let head = line_mentions(line, line_spans(line), targets);
    if 0 <= n < bytes.len() {
        head + content_mentions(bytes.subrange(n + 1, bytes.len() as int), targets)
    } else {
        head
    }
}

/// A line feed inside valid text stands between two character boundaries.
pub proof fn lemma_newline_boundaries(bytes: Seq<u8>, n: int)
    requires
        valid_utf8(bytes),
        0 <= n < bytes.len(),
        bytes[n] == 0x0a,
    ensures
        is_char_boundary(bytes, n),
        valid_utf8(bytes.subrange(n, bytes.len() as int)),
        is_char_boundary(bytes.subrange(n, bytes.len() as int), 1),
{
    is_char_boundary_iff_not_is_continuation_byte(bytes, n);
    valid_utf8_split(bytes, n);
    let tail = bytes.subrange(n, bytes.len() as int);
    assert(tail[0] == 0x0a);
    assert(is_char_boundary(pop_first_scalar(tail), 0));
}

/// Rewrites every line of `content` and appends the tokens used to
/// `mentions`.
pub fn rewrite_content(content: &str, targets: &Vec<MentionTarget>, mentions: &mut String) -> (out:
    String)
    ensures
        encode_utf8(out@) == rewritten_content(encode_utf8(content@), target_texts(targets@)),
        encode_utf8(final(mentions)@) == encode_utf8(old(mentions)@) + content_mentions(
            encode_utf8(content@),
            target_texts(targets@),
        ),
{
    let ghost bytes = encode_utf8(content@);
    let ghost texts = target_texts(targets@);
    let ghost found = encode_utf8(mentions@);
    let mut out = String::new();
    let mut rest: &str = content;
    loop
        invariant_except_break
            encode_utf8(out@) + rewritten_content(rest.spec_bytes(), texts) == rewritten_content(
                bytes,
                texts,
            ),
            encode_utf8(mentions@) + content_mentions(rest.spec_bytes(), texts) == found
                + content_mentions(bytes, texts),
        invariant
            texts == target_texts(targets@),
        ensures
            encode_utf8(out@) == rewritten_content(bytes, texts),
            encode_utf8(mentions@) == found + content_mentions(bytes, texts),
        decreases rest.spec_bytes().len(),
    {
        let ghost here = rest.spec_bytes();
        let ghost out_before = encode_utf8(out@);
        let ghost found_before = encode_utf8(mentions@);
        let n = newline_offset(rest.as_bytes());
        proof {
            encode_utf8_valid_utf8(rest@);
            if n < here.len() {
                lemma_newline_boundaries(here, n as int);
            } else {
                is_char_boundary_start_end_of_seq(here);
            }
        }
        let (line, tail) = rest.split_at(n);
        proof {
            encode_utf8_decode_utf8(line@);
        }
        let new_line = rewrite_line(line, targets, mentions);
        append_text(&mut out, new_line.as_str());
        let ghost head = rewritten_line(line.spec_bytes(), line_spans(line.spec_bytes()), texts);
        let ghost said = line_mentions(line.spec_bytes(), line_spans(line.spec_bytes()), texts);
        assert(encode_utf8(out@) == out_before + head);
        assert(encode_utf8(mentions@) == found_before + said);
        if tail.as_bytes().len() == 0 {
            assert(n == here.len());
            assert(rewritten_content(here, texts) == head);
            assert(content_mentions(here, texts) == said);
            break;
        }
        let (feed, next) = tail.split_at(1);
        append_text(&mut out, feed);
        proof {
            assert(feed.spec_bytes() =~= seq![0x0au8]);
            assert(next.spec_bytes() =~= here.subrange(n + 1, here.len() as int));
            assert(rewritten_content(here, texts) == head + seq![0x0au8] + rewritten_content(
                next.spec_bytes(),
                texts,
            ));
            assert(content_mentions(here, texts) == said + content_mentions(
                next.spec_bytes(),
                texts,
            ));
            assert(encode_utf8(out@) + rewritten_content(next.spec_bytes(), texts)
                =~= rewritten_content(bytes, texts));
            assert(encode_utf8(mentions@) + content_mentions(next.spec_bytes(), texts) =~= found
                + content_mentions(bytes, texts));
        }
        rest = next;
    }
    out
}

/// No target answers to the text of span `k`.
pub open spec fn unresolved(
    bytes: Seq<u8>,
    spans: Seq<(usize, usize)>,
    targets: Seq<TargetText>,
    k: int,
) -> bool {
    match group_ref_of(span_text(bytes, spans[k])) {
        Some(r) => !resolves(targets, r),
        None => true,
    }
}

/// While no target answers, the rewritten line is the line itself, as far
/// as the spans reach, and nothing is mentioned.
pub proof fn lemma_prefix_unchanged(
    bytes: Seq<u8>,
    spans: Seq<(usize, usize)>,
    targets: Seq<TargetText>,
    k: nat,
)
    requires
        spans_in_order(bytes, spans),
        k <= spans.len(),
        forall|i: int| 0 <= i < k ==> unresolved(bytes, spans, targets, i),
    ensures
        0 <= covered(spans, k) <= bytes.len(),
        rewritten_prefix(bytes, spans, targets, k) == bytes.subrange(0, covered(spans, k)),
        mentions_prefix(bytes, spans, targets, k) == Seq::<u8>::empty(),
    decreases k,
{
    if k > 0 {
        lemma_prefix_unchanged(bytes, spans, targets, (k - 1) as nat);
        assert(unresolved(bytes, spans, targets, k - 1));
        if k > 1 {
            assert(spans[k - 2].1 <= spans[k - 1].0);
        }
        assert(rewritten_prefix(bytes, spans, targets, k) =~= bytes.subrange(
            0,
            covered(spans, k),
        ));
        assert(mentions_prefix(bytes, spans, targets, k) =~= Seq::<u8>::empty());
    } else {
        assert(rewritten_prefix(bytes, spans, targets, k) =~= bytes.subrange(0, 0));
    }
}

/// A line in which no target answers to any match comes out as it went in,
/// and mentions nothing. This holds of a line without a match.
pub proof fn lemma_line_unchanged(
    bytes: Seq<u8>,
    spans: Seq<(usize, usize)>,
    targets: Seq<TargetText>,
)
    requires
        spans_in_order(bytes, spans),
        forall|i: int| 0 <= i < spans.len() ==> unresolved(bytes, spans, targets, i),
    ensures
        rewritten_line(bytes, spans, targets) == bytes,
        line_mentions(bytes, spans, targets) == Seq::<u8>::empty(),
{
    lemma_prefix_unchanged(bytes, spans, targets, spans.len());
    assert(rewritten_line(bytes, spans, targets) =~= bytes);
}

/// The first line ends inside the text, at a line feed or at the end.
pub proof fn lemma_first_newline_bounds(bytes: Seq<u8>)
    ensures
        0 <= first_newline(bytes) <= bytes.len(),
        first_newline(bytes) < bytes.len() ==> bytes[first_newline(bytes)] == 0x0a,
    decreases bytes.len(),
{
    if bytes.len() > 0 && bytes[0] != 0x0a {
        lemma_first_newline_bounds(bytes.drop_first());
    }
}

/// Where the targets are such that none answers to any reference, as where
/// there is no target, a content comes out as it went in and mentions
/// nothing.
pub proof fn lemma_content_unchanged(bytes: Seq<u8>, targets: Seq<TargetText>)
    requires
        forall|r: GroupRef| !resolves(targets, r),
    ensures
        rewritten_content(bytes, targets) == bytes,
        content_mentions(bytes, targets) == Seq::<u8>::empty(),
    decreases bytes.len(),
{
    let n = first_newline(bytes);
    let line = bytes.subrange(0, n);
    lemma_first_newline_bounds(bytes);
    lemma_line_unchanged(line, line_spans(line), targets);
    if n < bytes.len() {
        let rest = bytes.subrange(n + 1, bytes.len() as int);
        lemma_content_unchanged(rest, targets);
        assert(line + seq![0x0au8] + rest =~= bytes);
    } else {
        assert(line =~= bytes);
    }
}

/// What the contract of `rewrite_line` says of its result is said of one
/// text only: two results for one line and one list of targets are the same
/// text.
pub proof fn lemma_rewrite_determined(
    line: Seq<char>,
    targets: Seq<TargetText>,
    first: Seq<char>,
    second: Seq<char>,
)
    requires
        encode_utf8(first) == rewritten_line(
            encode_utf8(line),
            line_spans(encode_utf8(line)),
            targets,
        ),
        encode_utf8(second) == rewritten_line(
            encode_utf8(line),
            line_spans(encode_utf8(line)),
            targets,
        ),
    ensures
        first == second,
{
    encode_utf8_decode_utf8(first);
    encode_utf8_decode_utf8(second);
}

/// By how much the first `k` replacements have moved what follows them: the
/// sum of the differences in length between each replacement and the text it
/// replaced.
pub open spec fn drift(
    bytes: Seq<u8>,
    spans: Seq<(usize, usize)>,
    targets: Seq<TargetText>,
    k: nat,
) -> int
    decreases k,
{
    if k == 0 {
        0
    } else {
        drift(bytes, spans, targets, (k - 1) as nat) + replacement(
            span_text(bytes, spans[k - 1]),
            targets,
        ).len() - (spans[k - 1].1 - spans[k - 1].0)
    }
}

/// The rewritten line up to the end of span `k` is as long as the line up
/// to there, and the drift.
pub proof fn lemma_prefix_len(
    bytes: Seq<u8>,
    spans: Seq<(usize, usize)>,
    targets: Seq<TargetText>,
    k: nat,
)
    requires
        spans_in_order(bytes, spans),
        k <= spans.len(),
    ensures
        0 <= covered(spans, k) <= bytes.len(),
        rewritten_prefix(bytes, spans, targets, k).len() == covered(spans, k) + drift(
            bytes,
            spans,
            targets,
            k,
        ),
    decreases k,
{
    if k > 0 {
        lemma_prefix_len(bytes, spans, targets, (k - 1) as nat);
        if k > 1 {
            assert(spans[k - 2].1 <= spans[k - 1].0);
        }
        assert(spans[k - 1].0 <= spans[k - 1].1 <= bytes.len());
    }
}

/// Each rewritten prefix opens every later one.
pub proof fn lemma_prefix_extends(
    bytes: Seq<u8>,
    spans: Seq<(usize, usize)>,
    targets: Seq<TargetText>,
    k: nat,
    m: nat,
)
    requires
        k <= m <= spans.len(),
    ensures
        rewritten_prefix(bytes, spans, targets, k).is_prefix_of(
            rewritten_prefix(bytes, spans, targets, m),
        ),
    decreases m - k,
{
    if k < m {
        lemma_prefix_extends(bytes, spans, targets, k, (m - 1) as nat);
    }
}

/// Every replacement stands where its match stood, moved by the drift of
/// the replacements before it, and the text between it and the match before
/// it stands in front of it, as it was.
pub proof fn lemma_replacement_position(
    bytes: Seq<u8>,
    spans: Seq<(usize, usize)>,
    targets: Seq<TargetText>,
    k: int,
)
    requires
        spans_in_order(bytes, spans),
        0 <= k < spans.len(),
    ensures
        ({
            let out = rewritten_line(bytes, spans, targets);
            let moved = drift(bytes, spans, targets, k as nat);
            let new_text = replacement(span_text(bytes, spans[k]), targets);
            let gap_start = covered(spans, k as nat);
            &&& 0 <= gap_start + moved <= spans[k].0 + moved
            &&& spans[k].0 + moved + new_text.len() <= out.len()
            &&& out.subrange(gap_start + moved, spans[k].0 + moved) == bytes.subrange(
                gap_start,
                spans[k].0 as int,
            )
            &&& out.subrange(spans[k].0 + moved, spans[k].0 + moved + new_text.len()) == new_text
        }),
{
    let out = rewritten_line(bytes, spans, targets);
    let before = rewritten_prefix(bytes, spans, targets, k as nat);
    let upto = rewritten_prefix(bytes, spans, targets, (k + 1) as nat);
    let moved = drift(bytes, spans, targets, k as nat);
    let new_text = replacement(span_text(bytes, spans[k]), targets);
    let gap = bytes.subrange(covered(spans, k as nat), spans[k].0 as int);
    lemma_prefix_len(bytes, spans, targets, k as nat);
    lemma_prefix_extends(bytes, spans, targets, (k + 1) as nat, spans.len());
    if k > 0 {
        assert(spans[k - 1].1 <= spans[k].0);
    }
    assert(upto == before + gap + new_text);
    assert(upto.is_prefix_of(out));
    let at = before.len() as int;
    assert(at == covered(spans, k as nat) + moved);
    assert(gap.len() == spans[k].0 - covered(spans, k as nat));
    assert(upto.len() == at + gap.len() + new_text.len());
    assert forall|i: int| 0 <= i < gap.len() implies out[at + i] == gap[i] by {
        assert(out[at + i] == upto[at + i]);
    }
    assert forall|i: int| 0 <= i < new_text.len() implies out[at + gap.len() + i]
        == new_text[i] by {
        assert(out[at + gap.len() + i] == upto[at + gap.len() + i]);
    }
    assert(out.subrange(at, at + gap.len()) =~= gap);
    assert(out.subrange(at + gap.len(), at + gap.len() + new_text.len()) =~= new_text);
}

/// A match to which no target answers moves nothing.
pub proof fn lemma_unresolved_adds_no_drift(
    bytes: Seq<u8>,
    spans: Seq<(usize, usize)>,
    targets: Seq<TargetText>,
    k: int,
)
    requires
        spans_in_order(bytes, spans),
        0 <= k < spans.len(),
        unresolved(bytes, spans, targets, k),
    ensures
        drift(bytes, spans, targets, (k + 1) as nat) == drift(bytes, spans, targets, k as nat),
{
}

/// The tokens that answer to a reference are valid text.
pub proof fn lemma_tokens_valid(targets: Seq<TargetText>, r: GroupRef)
    ensures
        valid_utf8(resolved_tokens(targets, r)),
    decreases targets.len(),
{
    if targets.len() > 0 {
        lemma_tokens_valid(targets.drop_last(), r);
        encode_utf8_valid_utf8(targets.last().token);
        valid_utf8_concat(resolved_tokens(targets.drop_last(), r), encode_utf8(targets.last().token));
        valid_utf8_concat(resolved_tokens(targets.drop_last(), r), Seq::<u8>::empty());
    }
}

/// What stands in place of a valid text, and what it adds to the mentions,
/// is valid text.
pub proof fn lemma_replacement_valid(text: Seq<u8>, targets: Seq<TargetText>)
    requires
        valid_utf8(text),
    ensures
        valid_utf8(replacement(text, targets)),
        valid_utf8(mention_of(text, targets)),
{
    match group_ref_of(text) {
        Some(r) => {
            lemma_tokens_valid(targets, r);
        },
        None => {},
    }
}

/// The rewritten form of a valid line is valid as far as the spans reach,
/// and so are the mentions.
pub proof fn lemma_prefix_valid(
    bytes: Seq<u8>,
    spans: Seq<(usize, usize)>,
    targets: Seq<TargetText>,
    k: nat,
)
    requires
        valid_utf8(bytes),
        spans_in_order(bytes, spans),
        k <= spans.len(),
    ensures
        0 <= covered(spans, k) <= bytes.len(),
        is_char_boundary(bytes, covered(spans, k)),
        valid_utf8(rewritten_prefix(bytes, spans, targets, k)),
        valid_utf8(mentions_prefix(bytes, spans, targets, k)),
    decreases k,
{
    if k > 0 {
        lemma_prefix_valid(bytes, spans, targets, (k - 1) as nat);
        let from = covered(spans, (k - 1) as nat);
        let span = spans[k - 1];
        if k > 1 {
            assert(spans[k - 2].1 <= spans[k - 1].0);
        }
        assert(span.0 <= span.1 <= bytes.len());
        lemma_valid_between(bytes, from, span.0 as int);
        lemma_valid_between(bytes, span.0 as int, span.1 as int);
        lemma_replacement_valid(span_text(bytes, span), targets);
        let before = rewritten_prefix(bytes, spans, targets, (k - 1) as nat);
        let gap = bytes.subrange(from, span.0 as int);
        valid_utf8_concat(before, gap);
        valid_utf8_concat(before + gap, replacement(span_text(bytes, span), targets));
        valid_utf8_concat(
            mentions_prefix(bytes, spans, targets, (k - 1) as nat),
            mention_of(span_text(bytes, span), targets),
        );
    }
}

/// The rewritten form of a valid line is valid text, and so are its
/// mentions.
pub proof fn lemma_line_valid(
    bytes: Seq<u8>,
    spans: Seq<(usize, usize)>,
    targets: Seq<TargetText>,
)
    requires
        valid_utf8(bytes),
        spans_in_order(bytes, spans),
    ensures
        valid_utf8(rewritten_line(bytes, spans, targets)),
        valid_utf8(line_mentions(bytes, spans, targets)),
{
    lemma_prefix_valid(bytes, spans, targets, spans.len());
    is_char_boundary_start_end_of_seq(bytes);
    lemma_valid_between(bytes, covered(spans, spans.len()), bytes.len() as int);
    valid_utf8_concat(
        rewritten_prefix(bytes, spans, targets, spans.len()),
        bytes.subrange(covered(spans, spans.len()), bytes.len() as int),
    );
}

/// The rewritten form of a valid content is valid text, and so are its
/// mentions.
pub proof fn lemma_content_valid(bytes: Seq<u8>, targets: Seq<TargetText>)
    requires
        valid_utf8(bytes),
    ensures
        valid_utf8(rewritten_content(bytes, targets)),
        valid_utf8(content_mentions(bytes, targets)),
    decreases bytes.len(),
{
    let n = first_newline(bytes);
    let line = bytes.subrange(0, n);
    lemma_first_newline_bounds(bytes);
    if n < bytes.len() {
        lemma_newline_boundaries(bytes, n);
        valid_utf8_split(bytes, n);
        let tail = bytes.subrange(n, bytes.len() as int);
        valid_utf8_split(tail, 1);
        let feed = seq![0x0au8];
        let rest = bytes.subrange(n + 1, bytes.len() as int);
        assert(tail.subrange(0, 1) =~= feed);
        assert(tail.subrange(1, tail.len() as int) =~= rest);
        lemma_line_valid(line, line_spans(line), targets);
        lemma_content_valid(rest, targets);
        let head = rewritten_line(line, line_spans(line), targets);
        valid_utf8_concat(head, feed);
        valid_utf8_concat(head + feed, rewritten_content(rest, targets));
        valid_utf8_concat(
            line_mentions(line, line_spans(line), targets),
            content_mentions(rest, targets),
        );
    } else {
        assert(line =~= bytes);
        lemma_line_valid(line, line_spans(line), targets);
    }
}

} // verus!
