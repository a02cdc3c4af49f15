//! The structured record parser: a fixed set of fields filled from sibling
//! attributes, each field from the attributes of one tag.
//!
//! A [`Schema`] is the set of slots of one record: it says which tags it
//! knows, how the value of each is read, and which slots have to be filled
//! at the end. [`parse_record`] walks the siblings and does the rest.

use crate::attribute::{
    spec_after, spec_attribute, spec_attributes, Attribute, AttributeView, Attributes,
};
use crate::endian::Endianness;
use crate::error::{DecodeFailure, RecordKind};
use crate::typed::spec_result_view;
use vstd::prelude::*;

verus! {

/// The slots of a record while it is read.
pub trait Schema: View + Sized {
    /// The record that the filled slots make.
    type Record: View;

    /// The record that the failures of this schema name.
    spec fn spec_record() -> RecordKind;

    /// The tags that the schema knows.
    spec fn spec_knows(kind: u16) -> bool;

    /// The tags of the fields that have to be set, in the order in which a
    /// missing one is reported.
    spec fn spec_required() -> Seq<u16>;

    /// Whether the field of the given tag is set.
    spec fn spec_is_set(slots: Self::V, tag: u16) -> bool;

    /// The slots before the first attribute: all unset.
    spec fn spec_empty() -> Self::V;

    /// The slots after one more attribute, or why the attribute is refused.
    spec fn spec_step(order: Endianness, slots: Self::V, attribute: AttributeView) -> Result<
        Self::V,
        DecodeFailure,
    >;

    /// The record of the slots after the last attribute, or the field that
    /// is missing.
    spec fn spec_finish(slots: Self::V) -> Result<<Self::Record as View>::V, DecodeFailure>;

    /// Before the first attribute no field is set.
    proof fn lemma_empty(tag: u16)
        ensures
            !Self::spec_is_set(Self::spec_empty(), tag),
    ;

    /// An attribute of an unknown tag is refused, whatever the slots hold.
    /// An attribute that is taken sets the field of its tag and no other.
    proof fn lemma_step(order: Endianness, slots: Self::V, attribute: AttributeView, tag: u16)
        ensures
            !Self::spec_knows(attribute.kind) ==> Self::spec_step(order, slots, attribute) == Err::<
                Self::V,
                DecodeFailure,
            >(DecodeFailure::UnknownTag { record: Self::spec_record(), kind: attribute.kind }),
            Self::spec_required().contains(tag) && Self::spec_step(order, slots, attribute) is Ok
                ==> (Self::spec_is_set(Self::spec_step(order, slots, attribute)->Ok_0, tag)
                <==> Self::spec_is_set(slots, tag) || attribute.kind == tag),
    ;

    /// The first required field that is not set is the one reported, and
    /// with every required field set there is a record.
    proof fn lemma_finish(slots: Self::V, index: int)
        ensures
            0 <= index < Self::spec_required().len() && !Self::spec_is_set(
                slots,
                Self::spec_required()[index],
            ) && (forall|j: int|
                0 <= j < index ==> Self::spec_is_set(slots, #[trigger] Self::spec_required()[j]))
                ==> Self::spec_finish(slots) == Err::<<Self::Record as View>::V, DecodeFailure>(
                DecodeFailure::MissingField {
                    record: Self::spec_record(),
                    tag: Self::spec_required()[index],
                },
            ),
            (forall|j: int|
                0 <= j < Self::spec_required().len() ==> Self::spec_is_set(
                    slots,
                    #[trigger] Self::spec_required()[j],
                )) ==> Self::spec_finish(slots) is Ok,
    ;

    /// Slots with nothing set.
    fn empty() -> (slots: Self)
        ensures
            slots@ == Self::spec_empty(),
    ;

    /// Takes one attribute into the slots.
    fn step(self, order: Endianness, attribute: &Attribute<'_>) -> (r: Result<Self, DecodeFailure>)
        ensures
            spec_result_view(r) == Self::spec_step(order, self@, attribute@),
    ;

    /// Makes the record, if every slot is set.
    fn finish(self) -> (r: Result<Self::Record, DecodeFailure>)
        ensures
            spec_result_view(r) == Self::spec_finish(self@),
    ;
}

/// The slots after all of `items`, taken in their order into `slots`. The
/// first failure, of the walk or of a step, ends it.
pub open spec fn spec_fill<S: Schema>(
    order: Endianness,
    items: Seq<Result<AttributeView, DecodeFailure>>,
    slots: S::V,
) -> Result<S::V, DecodeFailure>
    decreases items.len(),
{
    if items.len() == 0 {
        Ok(slots)
    } else {
        match items.first() {
            Err(e) => Err(e),
            Ok(attribute) => match S::spec_step(order, slots, attribute) {
                Err(e) => Err(e),
                Ok(next) => spec_fill::<S>(order, items.drop_first(), next),
            },
        }
    }
}

/// The record that the sibling attributes in `bytes` make.
pub open spec fn spec_parse_record<S: Schema>(order: Endianness, bytes: Seq<u8>) -> Result<
    <S::Record as View>::V,
    DecodeFailure,
> {
    match spec_fill::<S>(order, spec_attributes(order, bytes), S::spec_empty()) {
        Ok(slots) => S::spec_finish(slots),
        Err(e) => Err(e),
    }
}

/// Reads the record of schema `S` from the sibling attributes in `buffer`.
///
/// The order of the siblings does not matter; of two with one tag the later
/// one stays. An attribute that the schema does not know, or whose value it
/// cannot read, fails the whole record, and so does a field that no
/// attribute has set.
pub fn parse_record<S: Schema>(order: Endianness, buffer: &[u8]) -> (r: Result<
    S::Record,
    DecodeFailure,
>)
    ensures
        spec_result_view(r) == spec_parse_record::<S>(order, buffer@),
{
    let mut walk = Attributes::new(order, buffer);
    let mut slots = S::empty();
    loop
        invariant_except_break
            walk.order() == order,
            spec_fill::<S>(order, spec_attributes(order, buffer@), S::spec_empty()) == spec_fill::<
                S,
            >(order, spec_attributes(order, walk.remaining()), slots@),
        ensures
            spec_fill::<S>(order, spec_attributes(order, buffer@), S::spec_empty()) == Ok::<
                S::V,
                DecodeFailure,
            >(slots@),
        decreases walk.remaining().len(),
    {
        let ghost bytes = walk.remaining();
        let ghost items = spec_attributes(order, bytes);
        match walk.next() {
            None => {
                break ;
            },
            Some(Err(e)) => {
                return Err(e);
            },
            Some(Ok(attribute)) => {
                assert(items.drop_first() =~= spec_attributes(order, spec_after(order, bytes)));
                match slots.step(order, &attribute) {
                    Ok(next) => {
                        slots = next;
                    },
                    Err(e) => {
                        return Err(e);
                    },
                }
            },
        }
    }
    slots.finish()
}

/// One step of the reading: where the buffer starts with an attribute
/// that the schema takes, the rest of the buffer is read into the slots
/// that the step gave.
pub proof fn lemma_fill_takes_one<S: Schema>(
    order: Endianness,
    bytes: Seq<u8>,
    slots: S::V,
    next: S::V,
)
    requires
        bytes.len() > 0,
        spec_attribute(order, bytes) is Ok,
        S::spec_step(order, slots, spec_attribute(order, bytes)->Ok_0) == Ok::<
            S::V,
            DecodeFailure,
        >(next),
    ensures
        spec_fill::<S>(order, spec_attributes(order, bytes), slots) == spec_fill::<S>(
            order,
            spec_attributes(order, spec_after(order, bytes)),
            next,
        ),
{
    let items = spec_attributes(order, bytes);
    assert(items.first() == spec_attribute(order, bytes));
    assert(items.drop_first() =~= spec_attributes(order, spec_after(order, bytes)));
}

/// The first attribute that cannot be read, or that the schema refuses
/// whatever the slots hold, decides the result: what stands behind it in
/// the buffer does not matter.
pub proof fn lemma_first_failure_decides<S: Schema>(
    order: Endianness,
    items: Seq<Result<AttributeView, DecodeFailure>>,
    slots: S::V,
    at: int,
    failure: DecodeFailure,
)
    requires
        0 <= at < items.len(),
        forall|i: int, before: S::V|
            0 <= i < at ==> items[i] is Ok && (#[trigger] S::spec_step(
                order,
                before,
                items[i]->Ok_0,
            )) is Ok,
        match items[at] {
            Err(e) => e == failure,
            Ok(attribute) => forall|before: S::V| #[trigger]
                S::spec_step(order, before, attribute) == Err::<S::V, DecodeFailure>(failure),
        },
    ensures
        spec_fill::<S>(order, items, slots) == Err::<S::V, DecodeFailure>(failure),
    decreases at,
{
    if at > 0 {
        let next = S::spec_step(order, slots, items[0]->Ok_0);
        let rest = items.drop_first();
        assert forall|i: int, before: S::V| 0 <= i < at - 1 implies rest[i] is Ok && (
        #[trigger] S::spec_step(order, before, rest[i]->Ok_0)) is Ok by {
            assert(rest[i] == items[i + 1]);
            assert(S::spec_step(order, before, items[i + 1]->Ok_0) is Ok);
        }
        assert(rest[at - 1] == items[at]);
        lemma_first_failure_decides::<S>(order, rest, next->Ok_0, at - 1, failure);
    }
}

/// A buffer that ends inside the header of its first attribute makes no
/// record: the failure is a truncation.
pub proof fn lemma_truncated_record_is_rejected<S: Schema>(order: Endianness, bytes: Seq<u8>)
    requires
        0 < bytes.len() < 4,
    ensures
        spec_parse_record::<S>(order, bytes) == Err::<<S::Record as View>::V, DecodeFailure>(
            DecodeFailure::Truncated { needed: 4, available: bytes.len() as usize },
        ),
{
    reveal(spec_attribute);
}

/// Strict schema: an attribute whose tag the schema does not know fails the
/// record with that tag, if nothing before it has failed; what stands
/// behind it, and whether every field is present, does not matter.
pub proof fn lemma_unknown_tag_is_rejected<S: Schema>(order: Endianness, bytes: Seq<u8>, at: int)
    requires
        0 <= at < spec_attributes(order, bytes).len(),
        spec_attributes(order, bytes)[at] is Ok,
        !S::spec_knows(spec_attributes(order, bytes)[at]->Ok_0.kind),
        forall|i: int, before: S::V|
            0 <= i < at ==> spec_attributes(order, bytes)[i] is Ok && (#[trigger] S::spec_step(
                order,
                before,
                spec_attributes(order, bytes)[i]->Ok_0,
            )) is Ok,
    ensures
        spec_parse_record::<S>(order, bytes) == Err::<<S::Record as View>::V, DecodeFailure>(
            DecodeFailure::UnknownTag {
                record: S::spec_record(),
                kind: spec_attributes(order, bytes)[at]->Ok_0.kind,
            },
        ),
{
    let items = spec_attributes(order, bytes);
    let attribute = items[at]->Ok_0;
    let failure = DecodeFailure::UnknownTag { record: S::spec_record(), kind: attribute.kind };
    assert forall|before: S::V| #[trigger]
        S::spec_step(order, before, attribute) == Err::<S::V, DecodeFailure>(failure) by {
        S::lemma_step(order, before, attribute, 0);
    }
    lemma_first_failure_decides::<S>(order, items, S::spec_empty(), at, failure);
}

/// Whether one of `items` is an attribute of the given tag.
pub open spec fn spec_carries(items: Seq<Result<AttributeView, DecodeFailure>>, tag: u16) -> bool {
    exists|i: int| 0 <= i < items.len() && (#[trigger] items[i]) is Ok && items[i]->Ok_0.kind == tag
}

/// Where all of `items` are taken, a required field is set at the end if
/// it was set before or one of the attributes has its tag.
pub proof fn lemma_fill_sets<S: Schema>(
    order: Endianness,
    items: Seq<Result<AttributeView, DecodeFailure>>,
    slots: S::V,
    tag: u16,
)
    requires
        spec_fill::<S>(order, items, slots) is Ok,
        S::spec_required().contains(tag),
    ensures
        S::spec_is_set(spec_fill::<S>(order, items, slots)->Ok_0, tag) <==> S::spec_is_set(
            slots,
            tag,
        ) || spec_carries(items, tag),
    decreases items.len(),
{
    if items.len() > 0 {
        let attribute = items[0]->Ok_0;
        let next = S::spec_step(order, slots, attribute)->Ok_0;
        let rest = items.drop_first();
        S::lemma_step(order, slots, attribute, tag);
        lemma_fill_sets::<S>(order, rest, next, tag);
        if spec_carries(rest, tag) {
            let i = choose|i: int|
                0 <= i < rest.len() && (#[trigger] rest[i]) is Ok && rest[i]->Ok_0.kind == tag;
            assert(items[i + 1] == rest[i]);
        }
        if spec_carries(items, tag) && attribute.kind != tag {
            let i = choose|i: int|
                0 <= i < items.len() && (#[trigger] items[i]) is Ok && items[i]->Ok_0.kind == tag;
            assert(rest[i - 1] == items[i]);
        }
    }
}

/// Missing field: where every attribute of the buffer is taken and none of
/// them has the tag of a required field, the record fails with that tag, if
/// the fields that are reported before it are present.
pub proof fn lemma_missing_field_is_rejected<S: Schema>(
    order: Endianness,
    bytes: Seq<u8>,
    index: int,
)
    requires
        spec_fill::<S>(order, spec_attributes(order, bytes), S::spec_empty()) is Ok,
        0 <= index < S::spec_required().len(),
        !spec_carries(spec_attributes(order, bytes), S::spec_required()[index]),
        forall|j: int|
            0 <= j < index ==> spec_carries(
                spec_attributes(order, bytes),
                #[trigger] S::spec_required()[j],
            ),
    ensures
        spec_parse_record::<S>(order, bytes) == Err::<<S::Record as View>::V, DecodeFailure>(
            DecodeFailure::MissingField {
                record: S::spec_record(),
                tag: S::spec_required()[index],
            },
        ),
{
    let items = spec_attributes(order, bytes);
    let slots = spec_fill::<S>(order, items, S::spec_empty())->Ok_0;
    let required = S::spec_required();
    assert(required.contains(required[index]));
    S::lemma_empty(required[index]);
    lemma_fill_sets::<S>(order, items, S::spec_empty(), required[index]);
    assert forall|j: int| 0 <= j < index implies S::spec_is_set(slots, required[j]) by {
        assert(required.contains(required[j]));
        S::lemma_empty(required[j]);
        lemma_fill_sets::<S>(order, items, S::spec_empty(), required[j]);
    }
    S::lemma_finish(slots, index);
}

/// Where every attribute of the buffer is taken and each required field
/// has an attribute of its tag, there is a record.
pub proof fn lemma_complete_is_accepted<S: Schema>(order: Endianness, bytes: Seq<u8>)
    requires
        spec_fill::<S>(order, spec_attributes(order, bytes), S::spec_empty()) is Ok,
        forall|j: int|
            0 <= j < S::spec_required().len() ==> spec_carries(
                spec_attributes(order, bytes),
                #[trigger] S::spec_required()[j],
            ),
    ensures
        spec_parse_record::<S>(order, bytes) is Ok,
{
    let items = spec_attributes(order, bytes);
    let slots = spec_fill::<S>(order, items, S::spec_empty())->Ok_0;
    let required = S::spec_required();
    assert forall|j: int| 0 <= j < required.len() implies S::spec_is_set(slots, required[j]) by {
        assert(required.contains(required[j]));
        S::lemma_empty(required[j]);
        lemma_fill_sets::<S>(order, items, S::spec_empty(), required[j]);
    }
    S::lemma_finish(slots, 0);
}

} // verus!
