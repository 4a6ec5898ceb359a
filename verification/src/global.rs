//! The persisted configuration.

use vstd::prelude::*;

verus! {

/// The settings that are kept between runs.
#[derive(Debug)]
pub struct Config {
    pub token: Option<String>,
}

/// The mathematical value of a configuration.
pub struct ConfigView {
    pub token: Option<Seq<char>>,
}

impl ConfigView {
    /// Each setting of `other` where it has one, that of `self` where not.
    pub open spec fn merge(self, other: ConfigView) -> ConfigView {
        ConfigView {
            token: match other.token {
                Some(t) => Some(t),
                None => self.token,
            },
        }
    }
}

impl View for Config {
    type V = ConfigView;

    open spec fn view(&self) -> ConfigView {
        ConfigView {
            token: match self.token {
                Some(t) => Some(t@),
                None => None,
            },
        }
    }
}

impl Config {
    /// Lays `other` over `self`: a setting that `other` leaves open keeps the
    /// value it has in `self`.
    pub fn merge(&self, other: &Self) -> (r: Self)
        ensures
            r@ == self@.merge(other@),
    {
        let token = match &other.token {
            Some(t) => Some(t.clone()),
            None => match &self.token {
                Some(t) => Some(t.clone()),
                None => None,
            },
        };
        Self { token }
    }
}

/// Merging is associative: laying `c` over the merge of `a` and `b` is laying
/// the merge of `b` and `c` over `a`.
pub proof fn lemma_merge_associative(a: ConfigView, b: ConfigView, c: ConfigView)
    ensures
        a.merge(b).merge(c) == a.merge(b.merge(c)),
{
}

/// A configuration without settings changes nothing, on either side.
pub proof fn lemma_merge_empty(a: ConfigView)
    ensures
        a.merge(ConfigView { token: None }) == a,
        (ConfigView { token: None }).merge(a) == a,
{
}

} // verus!
