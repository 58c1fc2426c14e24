//! The part of a Pod that image logging reads.

use vstd::prelude::*;

verus! {

/// A container of a Pod, reduced to its image reference.
#[derive(Clone, Debug, PartialEq, Eq, Default)]
pub struct Container {
    /// The image reference, where the container names one.
    pub image: Option<String>,
}

/// A container as contracts see it.
pub struct ContainerView {
    pub image: Option<Seq<char>>,
}

impl View for Container {
    type V = ContainerView;

    open spec fn view(&self) -> ContainerView {
        ContainerView {
            image: match self.image {
                Some(image) => Some(image@),
                None => None,
            },
        }
    }
}

impl DeepView for Container {
    type V = ContainerView;

    open spec fn deep_view(&self) -> ContainerView {
        self@
    }
}

/// The containers of a Pod, in the order in which the Pod lists them.
#[derive(Clone, Debug, PartialEq, Eq, Default)]
pub struct PodSpec {
    pub containers: Vec<Container>,
    /// The containers that run before the others start, where the Pod has any.
    pub init_containers: Option<Vec<Container>>,
}

/// A Pod's specification as contracts see it.
pub struct PodSpecView {
    pub containers: Seq<ContainerView>,
    pub init_containers: Option<Seq<ContainerView>>,
}

impl View for PodSpec {
    type V = PodSpecView;

    open spec fn view(&self) -> PodSpecView {
        PodSpecView {
            containers: self.containers.deep_view(),
            init_containers: match self.init_containers {
                Some(containers) => Some(containers.deep_view()),
                None => None,
            },
        }
    }
}

/// A Pod as an admission request carries it.
#[derive(Clone, Debug, PartialEq, Eq, Default)]
pub struct PodObject {
    pub spec: Option<PodSpec>,
}

/// A Pod as contracts see it.
pub struct PodObjectView {
    pub spec: Option<PodSpecView>,
}

impl View for PodObject {
    type V = PodObjectView;

    open spec fn view(&self) -> PodObjectView {
        PodObjectView {
            spec: match self.spec {
                Some(spec) => Some(spec@),
                None => None,
            },
        }
    }
}

} // verus!
