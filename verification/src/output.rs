//! Per-output state: the ordered tag list and the focused (active)
//! subset, plus the only mutation paths a tag has — adding, removing,
//! and flipping the active flag.

use vstd::prelude::*;

use crate::tag::Tag;

verus! {

/// The unique connector name of an output.
#[derive(Debug)]
pub struct OutputName(pub String);

impl Clone for OutputName {
    fn clone(&self) -> (res: Self)
        ensures
            res == *self,
    {
        OutputName(self.0.clone())
    }
}

impl PartialEq for OutputName {
    fn eq(&self, other: &Self) -> (r: bool) {
        self.0 == other.0
    }
}

impl Eq for OutputName {
}

impl vstd::std_specs::cmp::PartialEqSpecImpl for OutputName {
    open spec fn obeys_eq_spec() -> bool {
        true
    }

    open spec fn eq_spec(&self, other: &Self) -> bool {
        self.0@ == other.0@
    }
}

/// The tags attached to one output, in user-visible order.
pub struct OutputState {
    pub tags: Vec<Tag>,
}

/// The subsequence of `tags` whose active flag is set, in tag order.
pub open spec fn spec_focused_tags(tags: Seq<Tag>) -> Seq<Tag>
    decreases tags.len(),
{
    if tags.len() == 0 {
        Seq::empty()
    } else {
        let rest = spec_focused_tags(tags.drop_last());
        if tags.last().active {
            rest.push(tags.last())
        } else {
            rest
        }
    }
}

/// `tags` after setting the active flag of every tag with id `id` to
/// `active`.
pub open spec fn spec_set_tag_active(tags: Seq<Tag>, id: u32, active: bool) -> Seq<Tag> {
    tags.map(
        |i: int, t: Tag|
            if t.id == id {
                Tag { id: t.id, name: t.name, active, layout: t.layout }
            } else {
                t
            },
    )
}

impl OutputState {
    /// An output starts with no tags.
    pub fn new() -> (r: Self)
        ensures
            r.tags@.len() == 0,
    {
        OutputState { tags: Vec::new() }
    }

    /// The tags whose active flag is set, in the output's tag order.
    pub fn focused_tags(&self) -> (r: Vec<Tag>)
        ensures
            r@ == spec_focused_tags(self.tags@),
    {
        let mut out: Vec<Tag> = Vec::new();
        let mut i: usize = 0;
        while i < self.tags.len()
            invariant
                0 <= i <= self.tags.len(),
                out@ == spec_focused_tags(self.tags@.take(i as int)),
            decreases self.tags.len() - i,
        {
            proof {
                assert(self.tags@.take(i + 1).drop_last() =~= self.tags@.take(i as int));
                assert(self.tags@.take(i + 1).last() == self.tags@[i as int]);
            }
            if self.tags[i].active {
                out.push(self.tags[i].clone());
            }
            i += 1;
        }
        proof {
            assert(self.tags@.take(self.tags@.len() as int) =~= self.tags@);
        }
        out
    }

    /// Attach a tag at the end of the output's tag order.
    pub fn add_tag(&mut self, tag: Tag)
        ensures
            final(self).tags@ == old(self).tags@.push(tag),
    {
        self.tags.push(tag);
    }

    /// Detach every tag with the given id.
    pub fn remove_tag(&mut self, id: u32)
        ensures
            final(self).tags@ == old(self).tags@.filter(|t: Tag| t.id != id),
    {
        let ghost all = self.tags@;
        let mut out: Vec<Tag> = Vec::new();
        let mut i: usize = 0;
        while i < self.tags.len()
            invariant
                0 <= i <= self.tags.len(),
                self.tags@ == all,
                out@ == all.take(i as int).filter(|t: Tag| t.id != id),
            decreases self.tags.len() - i,
        {
            proof {
                assert(all.take(i + 1).drop_last() =~= all.take(i as int));
                reveal(Seq::filter);
            }
            if self.tags[i].id != id {
                out.push(self.tags[i].clone());
            }
            i += 1;
        }
        proof {
            assert(all.take(all.len() as int) =~= all);
        }
        self.tags = out;
    }

    /// Set the active flag of every tag with the given id.
    pub fn set_tag_active(&mut self, id: u32, active: bool)
        ensures
            final(self).tags@ == spec_set_tag_active(old(self).tags@, id, active),
    {
        let ghost all = self.tags@;
        let mut i: usize = 0;
        while i < self.tags.len()
            invariant
                0 <= i <= self.tags.len(),
                self.tags@.len() == all.len(),
                forall|j: int| 0 <= j < all.len() ==> #[trigger] self.tags@[j] == (
                if i <= j {
                    all[j]
                } else {
                    spec_set_tag_active(all, id, active)[j]
                }),
            decreases self.tags.len() - i,
        {
            if self.tags[i].id == id {
                let name = self.tags[i].name.clone();
                let tag = Tag { id, name, active, layout: self.tags[i].layout };
                self.tags.set(i, tag);
            }
            i += 1;
        }
        proof {
            assert(self.tags@ =~= spec_set_tag_active(all, id, active));
        }
    }
}

} // verus!
