//! Framing of the review prompt: fitting untrusted evidence into the model's
//! token budget.
use crate::json::{Json, JsonMember};
use vstd::prelude::*;
use vstd::string::*;
use vstd::utf8::{
    encode_utf8, encode_utf8_valid_utf8, is_ascii_chars, is_ascii_chars_encode_utf8,
    is_char_boundary, valid_utf8,
};

verus! {

/// One item of untrusted review context: where it came from, its text and
/// the token count its producer estimated.
#[derive(Debug)]
pub struct ContextItem {
    pub source: String,
    pub content: String,
    pub tokens: u32,
}

/// The UTF-8 length of a text.
pub open spec fn blen(s: Seq<char>) -> int {
    encode_utf8(s).len() as int
}

/// Tokens at three bytes each, rounded up.
pub open spec fn tokens_of_len(n: int) -> int {
    (n + 2) / 3
}

/// The tokens an item counts for: its own estimate or its length at three
/// bytes a token, whichever is larger.
pub open spec fn item_tokens(it: ContextItem) -> int {
    let by_len = tokens_of_len(blen(it.content@));
    if (it.tokens as int) >= by_len {
        it.tokens as int
    } else {
        by_len
    }
}

/// The tokens of the first `k` items.
pub open spec fn tokens_before(items: Seq<ContextItem>, k: int) -> int
    decreases k,
{
    if k <= 0 {
        0
    } else {
        tokens_before(items, k - 1) + item_tokens(items[k - 1])
    }
}

/// How many leading items fit whole into `max` tokens.
pub open spec fn whole_from(items: Seq<ContextItem>, max: int, i: int) -> int
    decreases items.len() - i,
{
    if i < 0 || i >= items.len() {
        items.len() as int
    } else if tokens_before(items, i + 1) <= max {
        whole_from(items, max, i + 1)
    } else {
        i
    }
}

pub open spec fn whole_count(items: Seq<ContextItem>, max: int) -> int {
    whole_from(items, max, 0)
}

/// Adds with saturation at `u64::MAX`.
pub open spec fn sat_u64(a: int, b: int) -> int {
    if a + b > u64::MAX {
        u64::MAX as int
    } else {
        a + b
    }
}

/// The bytes of the first `k` whole items (source and content), saturating.
pub open spec fn bytes_before(items: Seq<ContextItem>, k: int) -> int
    decreases k,
{
    if k <= 0 {
        0
    } else {
        sat_u64(
            sat_u64(bytes_before(items, k - 1), blen(items[k - 1].source@)),
            blen(items[k - 1].content@),
        )
    }
}

/// The largest character boundary at or below `m`.
pub open spec fn last_boundary(bytes: Seq<u8>, m: int) -> int
    decreases m,
{
    if m <= 0 {
        0
    } else if is_char_boundary(bytes, m) {
        m
    } else {
        last_boundary(bytes, m - 1)
    }
}

/// The marker that ends a shortened item.
pub open spec fn omission_marker() -> Seq<char> {
    "\n\n... [remaining content omitted for model context budget]"@
}

/// The remaining budget is large enough to hold part of the next item.
pub open spec fn has_partial(items: Seq<ContextItem>, max: int) -> bool {
    let w = whole_count(items, max);
    w < items.len() && tokens_before(items, w) < max && max - tokens_before(items, w) > 200
}

/// The byte budget of a shortened item: three bytes per remaining token, less
/// one hundred, saturating.
pub open spec fn partial_limit(items: Seq<ContextItem>, max: int) -> int {
    let remaining = max - tokens_before(items, whole_count(items, max));
    let tripled = if remaining * 3 > usize::MAX {
        usize::MAX as int
    } else {
        remaining * 3
    };
    tripled - 100
}

/// An object with exactly the given members, in order.
pub open spec fn member_is(m: JsonMember, key: Seq<char>, value: Json) -> bool {
    m.key@ == key && m.value == value
}

/// The evidence entry of a whole item.
pub open spec fn whole_entry(e: Json, it: ContextItem) -> bool {
    &&& e is Object
    &&& e->Object_0@.len() == 3
    &&& e->Object_0@[0].key@ == "content"@
    &&& e->Object_0@[0].value is Str
    &&& e->Object_0@[0].value->Str_0@ == it.content@
    &&& member_is(e->Object_0@[1], "estimated_tokens"@, Json::UInt(item_tokens(it) as u64))
    &&& e->Object_0@[2].key@ == "source"@
    &&& e->Object_0@[2].value is Str
    &&& e->Object_0@[2].value->Str_0@ == it.source@
}

/// The content of a shortened item: the item itself when it fits the limit,
/// and otherwise its longest prefix that ends on a character boundary within
/// the limit followed by the omission marker.
pub open spec fn partial_content_ok(text: Seq<char>, it: ContextItem, limit: int) -> bool {
    let bytes = encode_utf8(it.content@);
    if bytes.len() > limit {
        encode_utf8(text) == bytes.subrange(0, last_boundary(bytes, limit)) + encode_utf8(
            omission_marker(),
        )
    } else {
        text == it.content@
    }
}

/// The evidence entry of a shortened item.
pub open spec fn partial_entry(e: Json, it: ContextItem, limit: int) -> bool {
    &&& e is Object
    &&& e->Object_0@.len() == 4
    &&& e->Object_0@[0].key@ == "content"@
    &&& e->Object_0@[0].value is Str
    &&& partial_content_ok(e->Object_0@[0].value->Str_0@, it, limit)
    &&& member_is(
        e->Object_0@[1],
        "estimated_tokens"@,
        Json::UInt(tokens_of_len(blen(e->Object_0@[0].value->Str_0@)) as u64),
    )
    &&& e->Object_0@[2].key@ == "source"@
    &&& e->Object_0@[2].value is Str
    &&& e->Object_0@[2].value->Str_0@ == it.source@
    &&& member_is(e->Object_0@[3], "truncated_for_budget"@, Json::Bool(true))
}

/// Encoding distributes over concatenation.
pub proof fn lemma_encode_utf8_concat(a: Seq<char>, b: Seq<char>)
    ensures
        encode_utf8(a + b) == encode_utf8(a) + encode_utf8(b),
    decreases a.len(),
{
    if a.len() > 0 {
        lemma_encode_utf8_concat(a.drop_first(), b);
        assert((a + b).drop_first() =~= a.drop_first() + b);
        assert((a + b)[0] == a[0]);
        assert(encode_utf8(a + b) =~= encode_utf8(a) + encode_utf8(b));
    } else {
        assert(a + b =~= b);
    }
}

proof fn lemma_tokens_before_mono(items: Seq<ContextItem>, a: int, b: int)
    requires
        0 <= a <= b <= items.len(),
    ensures
        tokens_before(items, a) <= tokens_before(items, b),
    decreases b - a,
{
    if a < b {
        lemma_tokens_before_mono(items, a, b - 1);
    }
}

proof fn lemma_whole_from(items: Seq<ContextItem>, max: int, i: int)
    requires
        0 <= i <= items.len(),
        tokens_before(items, i) <= max,
    ensures
        i <= whole_from(items, max, i) <= items.len(),
        tokens_before(items, whole_from(items, max, i)) <= max,
        whole_from(items, max, i) < items.len() ==> tokens_before(
            items,
            whole_from(items, max, i) + 1,
        ) > max,
    decreases items.len() - i,
{
    if i < items.len() && tokens_before(items, i + 1) <= max {
        lemma_whole_from(items, max, i + 1);
    }
}

fn make_text(s: &str) -> (r: String)
    ensures
        r@ == s@,
{
    s.to_owned()
}

/// Fits untrusted context items into a token budget: whole items while they
/// fit, then, when more than two hundred tokens remain, one shortened item;
/// returns the evidence entries and their source and content bytes.
pub fn fit_context_items_to_budget(items: &Vec<ContextItem>, max_tokens: usize) -> (r: (
    Vec<Json>,
    u64,
))
    requires
        max_tokens < usize::MAX || tokens_before(items@, items@.len() as int) <= usize::MAX,
        forall|k: int|
            0 <= k < items@.len() ==> blen((#[trigger] items@[k]).content@) <= usize::MAX && blen(
                items@[k].source@,
            ) <= usize::MAX,
    ensures
        ({
            let w = whole_count(items@, max_tokens as int);
            let out = r.0@;
            &&& out.len() == w + (if has_partial(items@, max_tokens as int) {
                1int
            } else {
                0int
            })
            &&& forall|j: int| 0 <= j < w ==> whole_entry(#[trigger] out[j], items@[j])
            &&& has_partial(items@, max_tokens as int) ==> partial_entry(
                out[w],
                items@[w],
                partial_limit(items@, max_tokens as int),
            )
            &&& !has_partial(items@, max_tokens as int) ==> r.1 == bytes_before(items@, w)
            &&& has_partial(items@, max_tokens as int) ==> r.1 == sat_u64(
                sat_u64(bytes_before(items@, w), blen(items@[w].source@)),
                blen(out[w]->Object_0@[0].value->Str_0@),
            )
        }),
{
    let ghost max = max_tokens as int;
    let mut evidence: Vec<Json> = Vec::new();
    let mut used: usize = 0;
    let mut bytes: u64 = 0;
    let mut i: usize = 0;
    proof {
        lemma_whole_from(items@, max, 0);
    }
    while i < items.len()
        invariant_except_break
            i <= items.len(),
            max == max_tokens as int,
            max_tokens < usize::MAX || tokens_before(items@, items@.len() as int) <= usize::MAX,
            forall|k: int|
                0 <= k < items@.len() ==> blen((#[trigger] items@[k]).content@) <= usize::MAX
                    && blen(items@[k].source@) <= usize::MAX,
            used as int == tokens_before(items@, i as int),
            used <= max_tokens,
            bytes as int == bytes_before(items@, i as int),
            i <= whole_count(items@, max),
            whole_count(items@, max) == whole_from(items@, max, i as int),
            evidence@.len() == i,
            forall|j: int| 0 <= j < i ==> whole_entry(#[trigger] evidence@[j], items@[j]),
        ensures
            ({
                let w = whole_count(items@, max);
                let out = evidence@;
                &&& out.len() == w + (if has_partial(items@, max) {
                    1int
                } else {
                    0int
                })
                &&& forall|j: int| 0 <= j < w ==> whole_entry(#[trigger] out[j], items@[j])
                &&& has_partial(items@, max) ==> partial_entry(
                    out[w],
                    items@[w],
                    partial_limit(items@, max),
                )
                &&& !has_partial(items@, max) ==> bytes == bytes_before(items@, w)
                &&& has_partial(items@, max) ==> bytes == sat_u64(
                    sat_u64(bytes_before(items@, w), blen(items@[w].source@)),
                    blen(out[w]->Object_0@[0].value->Str_0@),
                )
            }),
        decreases items.len() - i,
    {
        let item = &items[i];
        let content_str = item.content.as_str();
        let source_str = item.source.as_str();
        let content_len = content_str.len();
        let source_len = source_str.len();
        let by_len = content_len / 3 + (if content_len % 3 == 0 { 0 } else { 1 });
        let item_tok: usize = if (item.tokens as usize) >= by_len {
            item.tokens as usize
        } else {
            by_len
        };
        proof {
            assert(blen(items@[i as int].content@) <= usize::MAX);
            assert(content_len as int == blen(item.content@));
            assert(source_len as int == blen(item.source@));
            assert(by_len as int == tokens_of_len(blen(item.content@)));
            assert(item_tok as int == item_tokens(items@[i as int]));
            if max_tokens == usize::MAX {
                lemma_tokens_before_mono(items@, i + 1, items@.len() as int);
            }
        }
        if used.saturating_add(item_tok) <= max_tokens {
            used = used + item_tok;
            bytes = bytes.saturating_add(source_len as u64).saturating_add(content_len as u64);
            let entry = Json::Object(
                vec![
                    JsonMember { key: make_text("content"), value: Json::Str(item.content.clone()) },
                    JsonMember {
                        key: make_text("estimated_tokens"),
                        value: Json::UInt(item_tok as u64),
                    },
                    JsonMember { key: make_text("source"), value: Json::Str(item.source.clone()) },
                ],
            );
            evidence.push(entry);
            proof {
                lemma_whole_from(items@, max, i + 1);
            }
            i += 1;
        } else {
            proof {
                assert(whole_count(items@, max) == i);
            }
            if used < max_tokens {
                let remaining = max_tokens - used;
                if remaining > 200 {
                    let tripled = if remaining > usize::MAX / 3 {
                        usize::MAX
                    } else {
                        remaining * 3
                    };
                    let max_chars = tripled - 100;
                    let content = item.content.as_str();
                    proof {
                        encode_utf8_valid_utf8(item.content@);
                    }
                    let text = if content_len > max_chars {
                        let mut end = max_chars;
                        while end > 0 && !content.is_char_boundary(end)
                            invariant
                                end <= max_chars,
                                valid_utf8(content.spec_bytes()),
                                last_boundary(content.spec_bytes(), max_chars as int)
                                    == last_boundary(content.spec_bytes(), end as int),
                            decreases end,
                        {
                            end -= 1;
                        }
                        proof {
                            assert(last_boundary(content.spec_bytes(), end as int) == end);
                        }
                        let (head, _) = content.split_at(end);
                        let mut shortened = head.to_owned();
                        let marker = "\n\n... [remaining content omitted for model context budget]";
                        shortened.append(marker);
                        proof {
                            reveal_strlit("\n\n... [remaining content omitted for model context budget]");
                            assert(marker@.len() == 58);
                            assert(is_ascii_chars(marker@));
                            is_ascii_chars_encode_utf8(marker@);
                            lemma_encode_utf8_concat(head@, marker@);
                            assert(encode_utf8(head@) == head.spec_bytes());
                            assert(marker@ == omission_marker());
                            assert(encode_utf8(shortened@) == content.spec_bytes().subrange(0, end as int) + encode_utf8(omission_marker()));
                            assert(blen(shortened@) == end + 58);
                        }
                        shortened
                    } else {
                        item.content.clone()
                    };
                    proof {
                        assert(partial_content_ok(text@, items@[i as int], max_chars as int));
                        assert(blen(text@) <= usize::MAX);
                    }
                    let text_str = text.as_str();
                    let text_len = text_str.len();
                    let actual_tokens = text_len / 3 + (if text_len % 3 == 0 { 0 } else { 1 });
                    bytes = bytes.saturating_add(source_len as u64).saturating_add(text_len as u64);
                    let entry = Json::Object(
                        vec![
                            JsonMember { key: make_text("content"), value: Json::Str(text) },
                            JsonMember {
                                key: make_text("estimated_tokens"),
                                value: Json::UInt(actual_tokens as u64),
                            },
                            JsonMember { key: make_text("source"), value: Json::Str(item.source.clone()) },
                            JsonMember { key: make_text("truncated_for_budget"), value: Json::Bool(true) },
                        ],
                    );
                    evidence.push(entry);
                }
            }
            break;
        }
    }
    (evidence, bytes)
}

/// The tokens an evidence entry is estimated at.
pub open spec fn entry_tokens(e: Json) -> int {
    e->Object_0@[1].value->UInt_0 as int
}

/// The estimated tokens of the first `k` entries.
pub open spec fn entries_tokens(entries: Seq<Json>, k: int) -> int
    decreases k,
{
    if k <= 0 {
        0
    } else {
        entries_tokens(entries, k - 1) + entry_tokens(entries[k - 1])
    }
}

proof fn lemma_last_boundary_below(bytes: Seq<u8>, m: int)
    ensures
        0 <= last_boundary(bytes, m),
        m >= 0 ==> last_boundary(bytes, m) <= m,
    decreases m,
{
    if m > 0 && !is_char_boundary(bytes, m) {
        lemma_last_boundary_below(bytes, m - 1);
    }
}

proof fn lemma_whole_entries_tokens(items: Seq<ContextItem>, out: Seq<Json>, k: int)
    requires
        0 <= k <= items.len(),
        k <= out.len(),
        forall|j: int| 0 <= j < k ==> whole_entry(#[trigger] out[j], items[j]),
        forall|j: int| 0 <= j < items.len() ==> blen((#[trigger] items[j]).content@) <= usize::MAX,
    ensures
        entries_tokens(out, k) == tokens_before(items, k),
    decreases k,
{
    if k > 0 {
        lemma_whole_entries_tokens(items, out, k - 1);
        let it = items[k - 1];
        assert(whole_entry(out[k - 1], it));
        assert(blen(it.content@) <= usize::MAX);
        assert(0 <= item_tokens(it) <= u64::MAX);
        assert(out[k - 1]->Object_0@[1].value == Json::UInt(item_tokens(it) as u64));
    }
}

/// Fitted evidence stays within the token budget: the estimated tokens of
/// the entries that fitting produces add up to at most the budget.
pub proof fn law_fitted_evidence_stays_within_budget(items: Seq<ContextItem>, max: int, out: Seq<Json>)
    requires
        0 <= max < usize::MAX,
        forall|j: int| 0 <= j < items.len() ==> blen((#[trigger] items[j]).content@) <= usize::MAX,
        out.len() == whole_count(items, max) + if has_partial(items, max) {
            1int
        } else {
            0int
        },
        forall|j: int| 0 <= j < whole_count(items, max) ==> whole_entry(#[trigger] out[j], items[j]),
        has_partial(items, max) ==> partial_entry(
            out[whole_count(items, max)],
            items[whole_count(items, max)],
            partial_limit(items, max),
        ),
    ensures
        entries_tokens(out, out.len() as int) <= max,
{
    let w = whole_count(items, max);
    lemma_whole_from(items, max, 0);
    lemma_whole_entries_tokens(items, out, w);
    if has_partial(items, max) {
        let it = items[w];
        let e = out[w];
        let text = e->Object_0@[0].value->Str_0@;
        let limit = partial_limit(items, max);
        let remaining = max - tokens_before(items, w);
        let bytes = encode_utf8(it.content@);
        assert(remaining > 200);
        assert(limit <= 3 * remaining - 100);
        if bytes.len() > limit {
            reveal_strlit("\n\n... [remaining content omitted for model context budget]");
            assert(omission_marker().len() == 58);
            assert(is_ascii_chars(omission_marker()));
            is_ascii_chars_encode_utf8(omission_marker());
            lemma_last_boundary_below(bytes, limit);
            assert(encode_utf8(text) == bytes.subrange(0, last_boundary(bytes, limit)) + encode_utf8(
                omission_marker(),
            ));
            assert(blen(text) == last_boundary(bytes, limit) + 58);
        } else {
            assert(text == it.content@);
        }
        assert(blen(text) <= limit + 58);
        assert(tokens_of_len(blen(text)) <= remaining);
        assert(0 <= tokens_of_len(blen(text)) <= u64::MAX);
        assert(entry_tokens(e) == tokens_of_len(blen(text)));
        assert(entries_tokens(out, w + 1) == entries_tokens(out, w) + entry_tokens(out[w]));
    }
}

} // verus!
