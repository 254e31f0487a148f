use vstd::prelude::*;

verus! {

/// What a rebuild changed about one subtree, reported to the caller so that
/// only the needed passes run afterwards.
#[derive(Clone, Copy, PartialEq, Eq, Structural, Debug)]
pub struct ChangeFlags {
    /// The change affects the subtree's size: layout must re-run.
    pub layout: bool,
    /// The change affects only what is drawn: paint must re-run.
    pub paint: bool,
    /// Nodes were added, removed or replaced.
    pub tree: bool,
    /// The node's view context (frame, pointer relation) changed.
    pub view_ctx: bool,
}

impl ChangeFlags {
    pub open spec fn none_spec() -> ChangeFlags {
        ChangeFlags { layout: false, paint: false, tree: false, view_ctx: false }
    }

    pub open spec fn union_spec(self, o: ChangeFlags) -> ChangeFlags {
        ChangeFlags {
            layout: self.layout || o.layout,
            paint: self.paint || o.paint,
            tree: self.tree || o.tree,
            view_ctx: self.view_ctx || o.view_ctx,
        }
    }

    pub open spec fn is_none_spec(self) -> bool {
        self == ChangeFlags::none_spec()
    }

    pub fn none() -> (r: ChangeFlags)
        ensures
            r == ChangeFlags::none_spec(),
    {
        ChangeFlags { layout: false, paint: false, tree: false, view_ctx: false }
    }

    pub fn union(self, o: ChangeFlags) -> (r: ChangeFlags)
        ensures
            r == self.union_spec(o),
    {
        ChangeFlags {
            layout: self.layout || o.layout,
            paint: self.paint || o.paint,
            tree: self.tree || o.tree,
            view_ctx: self.view_ctx || o.view_ctx,
        }
    }
}

/// The dirty flags of one retained widget node. Every raised flag propagates
/// to the root, so a pass that finds the root clear may skip the whole tree.
#[derive(Clone, Copy, PartialEq, Eq, Structural, Debug)]
pub struct PodFlags {
    /// The node's size may be stale: the next layout pass must visit it.
    pub request_layout: bool,
    /// The node's drawn content may be stale: the next paint pass must visit it.
    pub request_paint: bool,
    /// The subtree's structure changed since the last layout pass.
    pub tree_changed: bool,
    /// The node's view context changed: a lifecycle notice must be delivered.
    pub view_context_changed: bool,
}

impl PodFlags {
    pub open spec fn clear_spec() -> PodFlags {
        PodFlags {
            request_layout: false,
            request_paint: false,
            tree_changed: false,
            view_context_changed: false,
        }
    }

    /// The flags a freshly built node starts with: everything must run once.
    pub open spec fn init_spec() -> PodFlags {
        PodFlags {
            request_layout: true,
            request_paint: true,
            tree_changed: true,
            view_context_changed: false,
        }
    }

    pub open spec fn union_spec(self, o: PodFlags) -> PodFlags {
        PodFlags {
            request_layout: self.request_layout || o.request_layout,
            request_paint: self.request_paint || o.request_paint,
            tree_changed: self.tree_changed || o.tree_changed,
            view_context_changed: self.view_context_changed || o.view_context_changed,
        }
    }

    /// Raise the bits that a rebuild reported.
    pub open spec fn merge_change_spec(self, c: ChangeFlags) -> PodFlags {
        PodFlags {
            request_layout: self.request_layout || c.layout || c.tree,
            request_paint: self.request_paint || c.paint || c.layout || c.tree,
            tree_changed: self.tree_changed || c.tree,
            view_context_changed: self.view_context_changed || c.view_ctx,
        }
    }

    /// `o`'s raised flags are all raised in `self` as well.
    pub open spec fn covers(self, o: PodFlags) -> bool {
        &&& (o.request_layout ==> self.request_layout)
        &&& (o.request_paint ==> self.request_paint)
        &&& (o.tree_changed ==> self.tree_changed)
        &&& (o.view_context_changed ==> self.view_context_changed)
    }

    pub fn clear() -> (r: PodFlags)
        ensures
            r == PodFlags::clear_spec(),
    {
        PodFlags {
            request_layout: false,
            request_paint: false,
            tree_changed: false,
            view_context_changed: false,
        }
    }

    pub fn init() -> (r: PodFlags)
        ensures
            r == PodFlags::init_spec(),
    {
        PodFlags {
            request_layout: true,
            request_paint: true,
            tree_changed: true,
            view_context_changed: false,
        }
    }

    pub fn union(self, o: PodFlags) -> (r: PodFlags)
        ensures
            r == self.union_spec(o),
    {
        PodFlags {
            request_layout: self.request_layout || o.request_layout,
            request_paint: self.request_paint || o.request_paint,
            tree_changed: self.tree_changed || o.tree_changed,
            view_context_changed: self.view_context_changed || o.view_context_changed,
        }
    }

    pub fn merge_change(self, c: ChangeFlags) -> (r: PodFlags)
        ensures
            r == self.merge_change_spec(c),
    {
        PodFlags {
            request_layout: self.request_layout || c.layout || c.tree,
            request_paint: self.request_paint || c.paint || c.layout || c.tree,
            tree_changed: self.tree_changed || c.tree,
            view_context_changed: self.view_context_changed || c.view_ctx,
        }
    }
}

} // verus!
