//! One record for each container image of a Pod.

use crate::image::{digest_of, name_of, parse_image, registry_of, tag_of};
use crate::pod::{Container, ContainerView};
use vstd::prelude::*;

verus! {

/// What is reported of one container image: the kind of container that runs it
/// and the four parts of its reference.
#[derive(Clone, Debug, PartialEq, Eq)]
pub struct ImageRecord {
    pub kind: String,
    pub registry: String,
    pub name: String,
    pub tag: String,
    pub digest: String,
}

/// A record as contracts see it.
pub struct ImageRecordView {
    pub kind: Seq<char>,
    pub registry: Seq<char>,
    pub name: Seq<char>,
    pub tag: Seq<char>,
    pub digest: Seq<char>,
}

impl View for ImageRecord {
    type V = ImageRecordView;

    open spec fn view(&self) -> ImageRecordView {
        ImageRecordView {
            kind: self.kind@,
            registry: self.registry@,
            name: self.name@,
            tag: self.tag@,
            digest: self.digest@,
        }
    }
}

impl DeepView for ImageRecord {
    type V = ImageRecordView;

    open spec fn deep_view(&self) -> ImageRecordView {
        self@
    }
}

/// The record of the image reference `image` in a container of kind `kind`.
pub open spec fn record_of(kind: Seq<char>, image: Seq<char>) -> ImageRecordView {
    ImageRecordView {
        kind,
        registry: registry_of(image),
        name: name_of(image),
        tag: tag_of(image),
        digest: digest_of(image),
    }
}

/// The records of `containers`: one for each container that names an image, in
/// the containers' order; a container without an image gives none.
pub open spec fn image_records(containers: Seq<ContainerView>, kind: Seq<char>) -> Seq<
    ImageRecordView,
>
    decreases containers.len(),
{
    if containers.len() == 0 {
        Seq::empty()
    } else {
        let earlier = image_records(containers.drop_last(), kind);
        match containers.last().image {
            Some(image) => earlier.push(record_of(kind, image)),
            None => earlier,
        }
    }
}

/// The number of containers in `containers` that name an image.
pub open spec fn count_with_image(containers: Seq<ContainerView>) -> nat
    decreases containers.len(),
{
    if containers.len() == 0 {
        0
    } else {
        count_with_image(containers.drop_last()) + if containers.last().image is Some {
            1nat
        } else {
            0nat
        }
    }
}

/// There are as many records as containers that name an image, and every
/// record carries the kind it was asked for.
pub proof fn lemma_one_record_per_image(containers: Seq<ContainerView>, kind: Seq<char>)
    ensures
        image_records(containers, kind).len() == count_with_image(containers),
        image_records(containers, kind).len() <= containers.len(),
        forall|i: int|
            0 <= i < image_records(containers, kind).len() ==> (#[trigger] image_records(
                containers,
                kind,
            )[i]).kind == kind,
    decreases containers.len(),
{
    if containers.len() > 0 {
        lemma_one_record_per_image(containers.drop_last(), kind);
    }
}

/// The records of two lists of containers, one after the other, are the records
/// of the first followed by those of the second.
pub proof fn lemma_records_of_concat(
    front: Seq<ContainerView>,
    back: Seq<ContainerView>,
    kind: Seq<char>,
)
    ensures
        image_records(front + back, kind) == image_records(front, kind) + image_records(
            back,
            kind,
        ),
    decreases back.len(),
{
    if back.len() == 0 {
        assert(front + back =~= front);
    } else {
        assert((front + back).drop_last() =~= front + back.drop_last());
        lemma_records_of_concat(front, back.drop_last(), kind);
    }
    assert(image_records(front + back, kind) =~= image_records(front, kind) + image_records(
        back,
        kind,
    ));
}

/// Builds the records of `containers`, each marked with `kind`.
///
/// A container without an image is passed over; it is no error.
pub fn log_containers(containers: &Vec<Container>, kind: &str) -> (records: Vec<ImageRecord>)
    ensures
        records.deep_view() == image_records(containers.deep_view(), kind@),
{
    let mut records: Vec<ImageRecord> = Vec::new();
    let ghost all = containers.deep_view();
    for i in 0..containers.len()
        invariant
            all == containers.deep_view(),
            records.deep_view() == image_records(all.take(i as int), kind@),
    {
        assert(all.take(i + 1).drop_last() == all.take(i as int));
        assert(all.take(i + 1).last() == containers[i as int]@);
        let ghost before = records.deep_view();
        if let Some(image) = &containers[i].image {
            let (registry, name, tag, digest) = parse_image(image.as_str());
            records.push(ImageRecord { kind: kind.to_owned(), registry, name, tag, digest });
            assert(records.deep_view() == before.push(record_of(kind@, image@)));
        }
    }
    assert(all.take(containers.len() as int) == all);
    records
}

} // verus!
