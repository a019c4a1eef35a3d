//! Incoming answers of `POST /gliner-2`.
//!
//! Pioneer groups entities by label, so the label of a span comes from its
//! group rather than from the entity. Its offsets are **character**
//! positions; a [`NerSpan`]'s offset is a byte range into the source text, so
//! every offset is converted through the source's UTF-8 encoding. A span that
//! does not resolve against the submitted text is dropped, never repaired.

use vstd::prelude::*;
use vstd::std_specs::iter::IteratorSpec;
use vstd::utf8::*;

use crate::ner::{NerResponse, NerSpan, NerSpanView};
use crate::primitive::Confidence;
use crate::stt::{
    count_where, filter_map, lemma_count_where_agree, lemma_filter_map_index, lemma_filter_map_len,
};
use crate::text::{
    byte_offset, char_utf8_width, lemma_byte_offset_le_len, lemma_byte_offset_step,
    lemma_byte_offset_strict, lemma_byte_range_is_chars, utf8_len,
};

verus! {

broadcast use vstd::string::group_string_axioms;

/// One extracted entity as Pioneer reports it.
#[derive(Clone, Debug)]
pub struct WireEntity {
    /// The matched substring, used to validate the offsets.
    pub text: String,
    /// Confidence, absent unless requested.
    pub confidence: Option<Confidence>,
    /// Character offset, inclusive.
    pub start: Option<usize>,
    /// Character offset, exclusive.
    pub end: Option<usize>,
}

/// The abstract value of a [`WireEntity`].
pub struct WireEntityView {
    pub text: Seq<char>,
    pub confidence: Option<Confidence>,
    pub start: Option<usize>,
    pub end: Option<usize>,
}

impl View for WireEntity {
    type V = WireEntityView;

    open spec fn view(&self) -> WireEntityView {
        WireEntityView {
            text: self.text@,
            confidence: self.confidence,
            start: self.start,
            end: self.end,
        }
    }
}

/// The answer body: entities grouped under their label, one group per label,
/// in whatever order the body's map yields them. Decoding does not rely on
/// the labels being distinct.
#[derive(Clone, Debug)]
pub struct WireResponse {
    pub entities: Vec<(String, Vec<WireEntity>)>,
}

/// The length of the byte range `start..end`: zero when it is inverted.
pub open spec fn range_len(start: usize, end: usize) -> nat {
    if start < end {
        (end - start) as nat
    } else {
        0
    }
}

/// The span `e` stands for under `label`, given the byte offset of every
/// character of the source plus a final end marker; `None` when the entity
/// has no offsets, when they are inverted or empty, when they run past the
/// end of the source, or when the bytes they cover are not as many as the
/// echoed text takes.
pub open spec fn entity_span(e: WireEntityView, label: Seq<char>, offsets: Seq<usize>) -> Option<
    NerSpanView,
> {
    match (e.start, e.end) {
        (Some(start), Some(end)) => {
            if end <= start || end >= offsets.len() {
                None
            } else if range_len(offsets[start as int], offsets[end as int]) != utf8_len(e.text) {
                None
            } else {
                Some(
                    NerSpanView {
                        label,
                        confidence: match e.confidence {
                            Some(c) => c,
                            None => Confidence { bits: 0 },
                        },
                        start: offsets[start as int],
                        end: offsets[end as int],
                    },
                )
            }
        },
        _ => None,
    }
}

/// The spans of one label group, in order, dropping the unplaceable ones.
pub open spec fn group_spans(label: Seq<char>, es: Seq<WireEntityView>, offsets: Seq<usize>) -> Seq<
    NerSpanView,
>
    decreases es.len(),
{
    if es.len() == 0 {
        Seq::empty()
    } else {
        let rest = group_spans(label, es.drop_last(), offsets);
        match entity_span(es.last(), label, offsets) {
            Some(s) => rest.push(s),
            None => rest,
        }
    }
}

/// The abstract entities of one group.
pub open spec fn group_entities(g: (String, Vec<WireEntity>)) -> Seq<WireEntityView> {
    g.1@.map_values(|e: WireEntity| e@)
}

/// The spans of all groups, group by group.
pub open spec fn all_spans(groups: Seq<(String, Vec<WireEntity>)>, offsets: Seq<usize>) -> Seq<
    NerSpanView,
>
    decreases groups.len(),
{
    if groups.len() == 0 {
        Seq::empty()
    } else {
        let g = groups.last();
        all_spans(groups.drop_last(), offsets) + group_spans(g.0@, group_entities(g), offsets)
    }
}

/// Whether `offsets` is the character-to-byte table of `text`: the byte
/// offset of every character, then the byte length.
pub open spec fn is_offset_table(text: Seq<char>, offsets: Seq<usize>) -> bool {
    &&& offsets.len() == text.len() + 1
    &&& forall|i: int| 0 <= i <= text.len() ==> offsets[i] == byte_offset(text, i)
}

/// A lookup from character index to byte index for `text`, with a final
/// entry for the end of the string so an exclusive end offset resolves.
pub fn char_to_byte(text: &str) -> (map: Vec<usize>)
    requires
        utf8_len(text@) <= usize::MAX,
    ensures
        is_offset_table(text@, map@),
{
    let mut map: Vec<usize> = Vec::new();
    let mut byte: usize = 0;
    let mut chars = text.chars();
    let ghost mut i: int = 0;
    proof {
        assert(text@.take(0) =~= Seq::<char>::empty());
        assert(text@.skip(0) =~= text@);
    }
    loop
        invariant
            0 <= i <= text@.len(),
            chars.remaining() == text@.skip(i),
            chars.obeys_prophetic_iter_laws(),
            map@.len() == i,
            forall|k: int| 0 <= k < i ==> map@[k] == byte_offset(text@, k),
            byte == byte_offset(text@, i),
            utf8_len(text@) <= usize::MAX,
        ensures
            i == text@.len(),
            map@.len() == i,
            forall|k: int| 0 <= k < i ==> map@[k] == byte_offset(text@, k),
            byte == byte_offset(text@, i),
        decreases text@.len() - i,
    {
        match chars.next() {
            Some(c) => {
                proof {
                    assert(c == text@[i]);
                    lemma_byte_offset_step(text@, i);
                    lemma_byte_offset_le_len(text@, i + 1);
                }
                map.push(byte);
                let w = char_utf8_width(c);
                byte = byte + w;
                proof {
                    i = i + 1;
                    assert(text@.skip(i - 1).drop_first() =~= text@.skip(i));
                }
            },
            None => {
                proof {
                    assert(text@.skip(i).len() == 0);
                }
                break ;
            },
        }
    }
    map.push(byte);
    map
}

impl WireEntity {
    /// The span this entity stands for under `label`, or `None` when it
    /// cannot be placed in the source described by `offsets`.
    pub fn decode(&self, label: &str, offsets: &[usize]) -> (span: Option<NerSpan>)
        requires
            utf8_len(self.text@) <= usize::MAX,
        ensures
            match (span, entity_span(self@, label@, offsets@)) {
                (Some(s), Some(v)) => s@ == v,
                (None, None) => true,
                _ => false,
            },
    {
        let (start, end) = match (self.start, self.end) {
            (Some(start), Some(end)) => (start, end),
            _ => return None,
        };
        if end <= start || end >= offsets.len() {
            return None;
        }
        let range_start = offsets[start];
        let range_end = offsets[end];
        let covered: usize = if range_start < range_end {
            range_end - range_start
        } else {
            0
        };
        if covered != self.text.as_str().len() {
            return None;
        }
        let confidence = match self.confidence {
            Some(c) => c,
            None => Confidence::zero(),
        };
        Some(NerSpan::new(label.to_owned(), confidence, range_start..range_end))
    }
}

impl WireResponse {
    /// Whether every echoed entity text has a byte length that fits a `usize`.
    pub open spec fn texts_fit(&self) -> bool {
        forall|g: int, k: int|
            0 <= g < self.entities@.len() && 0 <= k < self.entities@[g].1@.len()
                ==> utf8_len(#[trigger] self.entities@[g].1@[k].text@) <= usize::MAX
    }

    /// The spans of `source`, the text that was submitted.
    pub fn decode(self, source: &str) -> (response: NerResponse)
        requires
            utf8_len(source@) <= usize::MAX,
            self.texts_fit(),
        ensures
            exists|offsets: Seq<usize>|
                is_offset_table(source@, offsets) && response.span_views() == all_spans(
                    self.entities@,
                    offsets,
                ),
    {
        let offsets = char_to_byte(source);
        let mut spans: Vec<NerSpan> = Vec::new();
        let n = self.entities.len();
        let mut g: usize = 0;
        while g < n
            invariant
                n == self.entities@.len(),
                0 <= g <= n,
                self.texts_fit(),
                spans@.map_values(|s: NerSpan| s@) == all_spans(self.entities@.take(g as int), offsets@),
            decreases n - g,
        {
            let label = self.entities[g].0.as_str();
            let entities = &self.entities[g].1;
            let m = entities.len();
            let mut k: usize = 0;
            let ghost before = spans@.map_values(|s: NerSpan| s@);
            let ghost es = group_entities(self.entities@[g as int]);
            while k < m
                invariant
                    m == entities@.len(),
                    0 <= k <= m,
                    entities == self.entities@[g as int].1,
                    es == group_entities(self.entities@[g as int]),
                    label@ == self.entities@[g as int].0@,
                    g < n,
                    n == self.entities@.len(),
                    self.texts_fit(),
                    spans@.map_values(|s: NerSpan| s@) == before + group_spans(label@, es.take(k as int), offsets@),
                decreases m - k,
            {
                assert(utf8_len(self.entities@[g as int].1@[k as int].text@) <= usize::MAX);
                let decoded = entities[k].decode(label, offsets.as_slice());
                proof {
                    assert(es.take(k as int + 1).drop_last() =~= es.take(k as int));
                    assert(es.take(k as int + 1).last() == entities@[k as int]@);
                }
                match decoded {
                    Some(s) => {
                        let ghost prev = spans@;
                        let ghost sv = s@;
                        spans.push(s);
                        proof {
                            assert(entity_span(es.take(k as int + 1).last(), label@, offsets@) == Some(sv));
                            assert(group_spans(label@, es.take(k as int + 1), offsets@) == group_spans(label@, es.take(k as int), offsets@).push(sv));
                            assert(spans@.map_values(|s: NerSpan| s@) =~= prev.map_values(|s: NerSpan| s@).push(sv));
                            assert(spans@.map_values(|s: NerSpan| s@) =~= before + group_spans(label@, es.take(k as int + 1), offsets@));
                        }
                    },
                    None => {
                        proof {
                            assert(spans@.map_values(|s: NerSpan| s@) =~= before + group_spans(label@, es.take(k as int + 1), offsets@));
                        }
                    },
                }
                k = k + 1;
            }
            proof {
                assert(es.take(m as int) =~= es);
                assert(self.entities@.take(g as int + 1).drop_last() =~= self.entities@.take(g as int));
                assert(spans@.map_values(|s: NerSpan| s@) =~= all_spans(self.entities@.take(g as int + 1), offsets@));
            }
            g = g + 1;
        }
        proof {
            assert(self.entities@.take(n as int) =~= self.entities@);
        }
        NerResponse::new(spans)
    }
}


/// A span placed through the source's character-to-byte table covers exactly
/// the characters its entity names: its byte range starts and ends on the
/// byte offsets of those characters, the bytes in it are their UTF-8
/// encoding, there are as many of them as the echoed text takes, and the
/// range is non-empty and inside the source.
pub proof fn lemma_entity_span_covers_its_characters(
    e: WireEntityView,
    label: Seq<char>,
    source: Seq<char>,
    offsets: Seq<usize>,
)
    requires
        is_offset_table(source, offsets),
        entity_span(e, label, offsets) is Some,
    ensures
        ({
            let v = entity_span(e, label, offsets)->0;
            let i = e.start->0 as int;
            let j = e.end->0 as int;
            &&& e.start is Some && e.end is Some
            &&& 0 <= i < j <= source.len()
            &&& v.label == label
            &&& v.start == byte_offset(source, i)
            &&& v.end == byte_offset(source, j)
            &&& v.start < v.end <= utf8_len(source)
            &&& encode_utf8(source).subrange(v.start as int, v.end as int) == encode_utf8(
                source.subrange(i, j),
            )
            &&& utf8_len(source.subrange(i, j)) == utf8_len(e.text)
        }),
{
    let i = e.start->0 as int;
    let j = e.end->0 as int;
    lemma_byte_offset_strict(source, i, j);
    lemma_byte_range_is_chars(source, i, j);
}

/// Every span of a decoded answer is the placement of one entity of one
/// group, under that group's label.
pub proof fn lemma_all_spans_come_from_entities(
    groups: Seq<(String, Vec<WireEntity>)>,
    offsets: Seq<usize>,
    n: int,
)
    requires
        0 <= n < all_spans(groups, offsets).len(),
    ensures
        exists|g: int, k: int|
            0 <= g < groups.len() && 0 <= k < group_entities(groups[g]).len() && entity_span(
                #[trigger] group_entities(groups[g])[k],
                groups[g].0@,
                offsets,
            ) == Some(all_spans(groups, offsets)[n]),
    decreases groups.len(),
{
    let front = all_spans(groups.drop_last(), offsets);
    let g = groups.len() - 1;
    if n < front.len() {
        lemma_all_spans_come_from_entities(groups.drop_last(), offsets, n);
        let (g0, k0) = choose|g0: int, k0: int|
            0 <= g0 < groups.drop_last().len() && 0 <= k0 < group_entities(
                groups.drop_last()[g0],
            ).len() && entity_span(
                #[trigger] group_entities(groups.drop_last()[g0])[k0],
                groups.drop_last()[g0].0@,
                offsets,
            ) == Some(front[n]);
        assert(groups.drop_last()[g0] == groups[g0]);
    } else {
        let es = group_entities(groups[g]);
        lemma_group_spans_come_from_entities(groups[g].0@, es, offsets, n - front.len());
        let k = choose|k: int|
            0 <= k < es.len() && entity_span(#[trigger] es[k], groups[g].0@, offsets) == Some(
                group_spans(groups[g].0@, es, offsets)[n - front.len()],
            );
        assert(group_entities(groups[g])[k] == es[k]);
    }
}

/// Every span of one group is the placement of one of its entities.
pub proof fn lemma_group_spans_come_from_entities(
    label: Seq<char>,
    es: Seq<WireEntityView>,
    offsets: Seq<usize>,
    n: int,
)
    requires
        0 <= n < group_spans(label, es, offsets).len(),
    ensures
        exists|k: int|
            0 <= k < es.len() && entity_span(#[trigger] es[k], label, offsets) == Some(
                group_spans(label, es, offsets)[n],
            ),
    decreases es.len(),
{
    let rest = group_spans(label, es.drop_last(), offsets);
    if n < rest.len() {
        lemma_group_spans_come_from_entities(label, es.drop_last(), offsets, n);
        let k = choose|k: int|
            0 <= k < es.drop_last().len() && entity_span(#[trigger] es.drop_last()[k], label, offsets)
                == Some(rest[n]);
        assert(es.drop_last()[k] == es[k]);
    } else {
        assert(entity_span(es[es.len() - 1], label, offsets) == Some(
            group_spans(label, es, offsets)[n],
        ));
    }
}

/// The promise of the decoding: every span a decoded answer carries is a
/// non-empty byte range of the submitted text that covers exactly the
/// characters Pioneer named for some entity, under that entity's group
/// label, and holds exactly as many bytes as the text Pioneer echoed for it.
pub proof fn lemma_decoded_spans_cover_named_characters(
    groups: Seq<(String, Vec<WireEntity>)>,
    source: Seq<char>,
    offsets: Seq<usize>,
    n: int,
)
    requires
        is_offset_table(source, offsets),
        0 <= n < all_spans(groups, offsets).len(),
    ensures
        exists|g: int, k: int|
            #![trigger group_entities(groups[g])[k]]
            0 <= g < groups.len() && 0 <= k < group_entities(groups[g]).len() && {
                let e = group_entities(groups[g])[k];
                let v = all_spans(groups, offsets)[n];
                let i = e.start->0 as int;
                let j = e.end->0 as int;
                &&& e.start is Some && e.end is Some
                &&& 0 <= i < j <= source.len()
                &&& v.label == groups[g].0@
                &&& v.start == byte_offset(source, i)
                &&& v.end == byte_offset(source, j)
                &&& v.start < v.end <= utf8_len(source)
                &&& encode_utf8(source).subrange(v.start as int, v.end as int) == encode_utf8(
                    source.subrange(i, j),
                )
                &&& utf8_len(source.subrange(i, j)) == utf8_len(e.text)
            },
{
    lemma_all_spans_come_from_entities(groups, offsets, n);
    let (g, k) = choose|g: int, k: int|
        0 <= g < groups.len() && 0 <= k < group_entities(groups[g]).len() && entity_span(
            #[trigger] group_entities(groups[g])[k],
            groups[g].0@,
            offsets,
        ) == Some(all_spans(groups, offsets)[n]);
    lemma_entity_span_covers_its_characters(
        group_entities(groups[g])[k],
        groups[g].0@,
        source,
        offsets,
    );
}

/// Whether an entity can be placed through `offsets`: it has both offsets,
/// they are in order and inside the table, and the bytes between them are
/// as many as its echoed text takes.
pub open spec fn placeable(e: WireEntityView, offsets: Seq<usize>) -> bool {
    match (e.start, e.end) {
        (Some(s), Some(t)) => s < t && t < offsets.len() && range_len(offsets[s as int], offsets[t as int])
            == utf8_len(e.text),
        _ => false,
    }
}

/// The confidence an entity's span carries: the one Pioneer reported, and
/// zero only when it reported none.
pub open spec fn reported_confidence(e: WireEntityView) -> Confidence {
    match e.confidence {
        Some(c) => c,
        None => Confidence { bits: 0 },
    }
}

/// The span a placeable entity becomes under `label`.
pub open spec fn expected_span(e: WireEntityView, label: Seq<char>, offsets: Seq<usize>) -> NerSpanView {
    NerSpanView {
        label,
        confidence: reported_confidence(e),
        start: offsets[e.start->0 as int],
        end: offsets[e.end->0 as int],
    }
}

/// An entity is placed exactly when it is placeable, whatever its
/// characters: its span then runs between the table's offsets of its two
/// character offsets, carries its group's label and the confidence Pioneer
/// reported for it (zero only when none was reported).
pub proof fn lemma_entity_law(e: WireEntityView, label: Seq<char>, offsets: Seq<usize>)
    ensures
        entity_span(e, label, offsets) is Some <==> placeable(e, offsets),
        placeable(e, offsets) ==> entity_span(e, label, offsets) == Some(expected_span(e, label, offsets)),
        placeable(e, offsets) ==> (e.confidence matches Some(c) ==> entity_span(e, label, offsets)->0.confidence == c),
{
}

/// Against the character-to-byte table of the source, an entity is placed
/// exactly when its character range lies in the source and those characters
/// take as many bytes as its echoed text, and then its span is the byte
/// range of exactly those characters.
pub proof fn lemma_entity_placed_in_source(
    e: WireEntityView,
    label: Seq<char>,
    source: Seq<char>,
    offsets: Seq<usize>,
)
    requires
        is_offset_table(source, offsets),
        e.start is Some,
        e.end is Some,
    ensures
        ({
            let s = e.start->0 as int;
            let t = e.end->0 as int;
            &&& entity_span(e, label, offsets) is Some <==> (s < t <= source.len() && utf8_len(
                source.subrange(s, t),
            ) == utf8_len(e.text))
            &&& entity_span(e, label, offsets) is Some ==> {
                let v = entity_span(e, label, offsets)->0;
                &&& v.start == byte_offset(source, s)
                &&& v.end == byte_offset(source, t)
                &&& v.label == label
                &&& v.confidence == reported_confidence(e)
            }
        }),
{
    let s = e.start->0 as int;
    let t = e.end->0 as int;
    if s < t && t <= source.len() {
        lemma_byte_offset_strict(source, s, t);
        lemma_byte_range_is_chars(source, s, t);
    }
}

/// One group's spans are what the placement keeps of its entities, in order.
pub proof fn lemma_group_spans_filter(label: Seq<char>, es: Seq<WireEntityView>, offsets: Seq<usize>)
    ensures
        group_spans(label, es, offsets) == filter_map(
            es,
            |e: WireEntityView| entity_span(e, label, offsets),
        ),
    decreases es.len(),
{
    if es.len() > 0 {
        lemma_group_spans_filter(label, es.drop_last(), offsets);
    }
}

/// How many entities of the groups can be placed.
pub open spec fn placed_count(groups: Seq<(String, Vec<WireEntity>)>, offsets: Seq<usize>) -> nat
    decreases groups.len(),
{
    if groups.len() == 0 {
        0
    } else {
        placed_count(groups.drop_last(), offsets) + count_where(
            group_entities(groups.last()),
            |e: WireEntityView| placeable(e, offsets),
        )
    }
}

/// One group's placed spans: as many as its placeable entities, and each
/// placeable entity's span stands right after those of the placeable
/// entities before it.
pub proof fn lemma_group_law(label: Seq<char>, es: Seq<WireEntityView>, offsets: Seq<usize>)
    ensures
        group_spans(label, es, offsets).len() == count_where(es, |e: WireEntityView| placeable(e, offsets)),
        forall|k: int|
            0 <= k < es.len() && placeable(#[trigger] es[k], offsets) ==> {
                let n = count_where(es.take(k), |e: WireEntityView| placeable(e, offsets));
                &&& n < group_spans(label, es, offsets).len()
                &&& group_spans(label, es, offsets)[n as int] == expected_span(es[k], label, offsets)
            },
{
    let f = |e: WireEntityView| entity_span(e, label, offsets);
    let p = |e: WireEntityView| f(e) is Some;
    let q = |e: WireEntityView| placeable(e, offsets);
    assert forall|e: WireEntityView| #[trigger] p(e) == q(e) by {
        lemma_entity_law(e, label, offsets);
    }
    lemma_group_spans_filter(label, es, offsets);
    lemma_filter_map_len(es, f);
    lemma_count_where_agree(es, p, q);
    assert forall|k: int|
        0 <= k < es.len() && placeable(#[trigger] es[k], offsets) implies {
            let n = count_where(es.take(k), |e: WireEntityView| placeable(e, offsets));
            &&& n < group_spans(label, es, offsets).len()
            &&& group_spans(label, es, offsets)[n as int] == expected_span(es[k], label, offsets)
        } by {
        lemma_entity_law(es[k], label, offsets);
        lemma_filter_map_index(es, f, k);
        lemma_count_where_agree(es.take(k), p, q);
    }
}

/// The whole answer: as many spans as placeable entities in all groups, and
/// every placeable entity's span, under its group's label, at the place its
/// group and its position in the group give it; no placeable entity is
/// dropped, whatever its characters.
pub proof fn lemma_decode_law(groups: Seq<(String, Vec<WireEntity>)>, offsets: Seq<usize>)
    ensures
        all_spans(groups, offsets).len() == placed_count(groups, offsets),
        forall|g: int, k: int|
            0 <= g < groups.len() && 0 <= k < group_entities(groups[g]).len() && placeable(
                #[trigger] group_entities(groups[g])[k],
                offsets,
            ) ==> {
                let n = placed_count(groups.take(g), offsets) + count_where(
                    group_entities(groups[g]).take(k),
                    |e: WireEntityView| placeable(e, offsets),
                );
                &&& n < all_spans(groups, offsets).len()
                &&& all_spans(groups, offsets)[n as int] == expected_span(
                    group_entities(groups[g])[k],
                    groups[g].0@,
                    offsets,
                )
            },
    decreases groups.len(),
{
    if groups.len() > 0 {
        let front = groups.drop_last();
        let last = groups.last();
        lemma_decode_law(front, offsets);
        lemma_group_law(last.0@, group_entities(last), offsets);
        assert forall|g: int, k: int|
            0 <= g < groups.len() && 0 <= k < group_entities(groups[g]).len() && placeable(
                #[trigger] group_entities(groups[g])[k],
                offsets,
            ) implies {
                let n = placed_count(groups.take(g), offsets) + count_where(
                    group_entities(groups[g]).take(k),
                    |e: WireEntityView| placeable(e, offsets),
                );
                &&& n < all_spans(groups, offsets).len()
                &&& all_spans(groups, offsets)[n as int] == expected_span(
                    group_entities(groups[g])[k],
                    groups[g].0@,
                    offsets,
                )
            } by {
            if g == groups.len() - 1 {
                assert(groups.take(g) =~= front);
            } else {
                assert(front.take(g) =~= groups.take(g));
                assert(front[g] == groups[g]);
                assert(group_entities(front[g])[k] == group_entities(groups[g])[k]);
            }
        }
    }
}

} // verus!
