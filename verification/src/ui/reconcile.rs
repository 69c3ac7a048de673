//! Reconciliation: the registry and the native tree agree.
//!
//! The native tree is the toolkit's; this crate never sees it. What it can
//! say is what the tree looks like if the UI thread carries out every action
//! of the dispatcher as the action asks: a widget is inserted at the end of
//! its parent's children, and a removal takes the child at the position
//! named. [`TreeView`] is that picture of the tree, and the laws below show
//! that the registry mirrors it after every command: each list of names
//! holds, in order, the names of the native children.

use vstd::prelude::*;

use crate::ui::creation::rejection;
use crate::ui::widget_manager::{
    lemma_parent_not_under, lemma_register_wf, lemma_remove_wf, lemma_under_outside,
    lemma_under_self, lemma_under_step, parent_key_of, root_key, NativeHandle, RegistryView,
    WidgetInfoView,
};

verus! {

/// The native tree as far as the registry must agree with it: the ordered
/// children of the root container (under `None`) and of every native widget.
pub ghost struct TreeView {
    pub children: Map<Option<NativeHandle>, Seq<NativeHandle>>,
}

impl TreeView {
    /// The tree at start-up: the root container, without children.
    pub open spec fn initial() -> TreeView {
        TreeView { children: Map::empty().insert(None, Seq::empty()) }
    }

    /// The tree after the widget `handle` was inserted at the end of the
    /// children of `parent`.
    pub open spec fn inserted(self, parent: Option<NativeHandle>, handle: NativeHandle) -> TreeView {
        TreeView {
            children: self.children.insert(parent, self.children[parent].push(handle)).insert(
                Some(handle),
                Seq::empty(),
            ),
        }
    }

    /// The tree after the child at `position` under `parent` was removed
    /// with everything below it.
    pub open spec fn removed(self, parent: Option<NativeHandle>, position: int) -> TreeView {
        TreeView { children: self.children.insert(parent, self.children[parent].remove(position)) }
    }
}

impl RegistryView {
    /// The native node behind the key `k`: the widget's handle, or the root
    /// container for a key that is no widget.
    pub open spec fn node(self, k: Seq<char>) -> Option<NativeHandle> {
        if self.widgets.contains_key(k) {
            Some(self.widgets[k].widget_id)
        } else {
            None
        }
    }

    /// The handles of the widgets named in `list`, in order.
    pub open spec fn handles_of(self, list: Seq<Seq<char>>) -> Seq<NativeHandle> {
        Seq::new(list.len(), |i: int| self.widgets[list[i]].widget_id)
    }

    /// Every list stands under the root key or under a widget: no parent was
    /// named that is not registered.
    pub open spec fn rooted(self) -> bool {
        forall|k: Seq<char>| #[trigger]
            self.children.contains_key(k) ==> k == root_key() || self.widgets.contains_key(k)
    }
}

/// The registry mirrors the tree: under every key, the list of names holds,
/// in order, the names of the children that the native node has.
pub open spec fn mirrors(r: RegistryView, t: TreeView) -> bool {
    forall|k: Seq<char>| #[trigger]
        r.children.contains_key(k) ==> t.children.contains_key(r.node(k)) && t.children[r.node(k)]
            == r.handles_of(r.children[k])
}

/// At start-up the registry mirrors the tree.
pub proof fn lemma_mirrors_initially()
    ensures
        RegistryView::initial().rooted(),
        mirrors(RegistryView::initial(), TreeView::initial()),
{
    let r = RegistryView::initial();
    let t = TreeView::initial();
    assert forall|k: Seq<char>| #[trigger] r.children.contains_key(k) implies t.children.contains_key(
        r.node(k),
    ) && t.children[r.node(k)] == r.handles_of(r.children[k]) by {
        assert(r.handles_of(r.children[k]) =~= Seq::<NativeHandle>::empty());
    }
}

/// In a rooted, well-formed registry different keys have different nodes.
pub proof fn lemma_nodes_differ(r: RegistryView, j: Seq<char>, k: Seq<char>)
    requires
        r.wf(),
        r.rooted(),
        r.children.contains_key(j),
        r.children.contains_key(k),
        r.node(j) == r.node(k),
    ensures
        j == k,
{
    if r.widgets.contains_key(j) {
        assert(r.placed(j));
        assert(r.placed(k));
    }
}

/// Creation keeps the two trees in step. Where the dispatcher plans an
/// insertion and the UI thread inserts the new native widget, with a fresh
/// handle, at the end of the children of the parent that the plan names,
/// the widget stands at the position that the plan names, and the registry,
/// once the insertion is finished, mirrors the tree again.
pub proof fn lemma_creation_mirrors(
    r: RegistryView,
    t: TreeView,
    id: Seq<char>,
    info: WidgetInfoView,
)
    requires
        r.wf(),
        r.rooted(),
        mirrors(r, t),
        rejection(r, id, info.parent_id) is None,
        !r.handles.contains_key(info.widget_id),
    ensures
        r.accepts(id, info),
        r.register(id, info).wf(),
        r.register(id, info).rooted(),
        t.children.contains_key(r.node(parent_key_of(info.parent_id))),
        t.children[r.node(parent_key_of(info.parent_id))].len() == r.child_count(
            parent_key_of(info.parent_id),
        ),
        mirrors(
            r.register(id, info),
            t.inserted(r.node(parent_key_of(info.parent_id)), info.widget_id),
        ),
{
    let pk = parent_key_of(info.parent_id);
    let h = info.widget_id;
    let parent = r.node(pk);
    if info.parent_id is Some {
        assert(r.placed(pk));
    } else {
        lemma_under_outside(r, id, root_key());
    }
    assert(r.children.contains_key(pk));
    assert(!r.children.contains_key(id));
    assert(r.accepts(id, info));
    lemma_register_wf(r, id, info);
    lemma_under_self(r, id);
    let s = r.with_widget(id, info);
    let u = t.inserted(parent, h);
    assert(t.children[parent].len() == r.children[pk].len());
    assert forall|k: Seq<char>| #[trigger] s.children.contains_key(k) implies u.children.contains_key(
        s.node(k),
    ) && u.children[s.node(k)] == s.handles_of(s.children[k]) by {
        if k == id {
            assert(s.handles_of(s.children[k]) =~= Seq::<NativeHandle>::empty());
        } else {
            assert(r.children.contains_key(k));
            assert(s.node(k) == r.node(k));
            if r.node(k) == Some(h) {
                assert(r.placed(k));
            }
            assert forall|i: int| 0 <= i < r.children[k].len() implies s.widgets[r.children[k][i]]
                == r.widgets[r.children[k][i]] by {
                assert(r.listed(k, i));
            }
            if k == pk {
                assert(s.handles_of(s.children[k]) =~= r.handles_of(r.children[k]).push(h));
            } else {
                if r.node(k) == parent {
                    lemma_nodes_differ(r, k, pk);
                }
                assert(s.handles_of(s.children[k]) =~= r.handles_of(r.children[k]));
            }
        }
    }
}

/// Removal keeps the two trees in step. Where a registered widget is
/// removed and the UI thread removes the native child at the position that
/// the action names, under the parent that it names, that child is the
/// widget's native node, and the registry mirrors the tree again.
pub proof fn lemma_removal_mirrors(r: RegistryView, t: TreeView, a: Seq<char>)
    requires
        r.wf(),
        r.rooted(),
        mirrors(r, t),
        r.widgets.contains_key(a),
    ensures
        r.remove(a).wf(),
        r.remove(a).rooted(),
        t.children.contains_key(r.node(r.parent_key(a))),
        r.widgets[a].child_index < t.children[r.node(r.parent_key(a))].len(),
        t.children[r.node(r.parent_key(a))][r.widgets[a].child_index as int]
            == r.widgets[a].widget_id,
        mirrors(
            r.remove(a),
            t.removed(r.node(r.parent_key(a)), r.widgets[a].child_index as int),
        ),
{
    let pk = r.parent_key(a);
    let ci = r.widgets[a].child_index as int;
    let parent = r.node(pk);
    let s = r.without_subtree(a);
    let u = t.removed(parent, ci);
    assert(r.placed(a));
    lemma_remove_wf(r, a);
    lemma_parent_not_under(r, a);
    assert(t.children[parent] == r.handles_of(r.children[pk]));
    assert forall|k: Seq<char>| #[trigger] s.children.contains_key(k) implies u.children.contains_key(
        s.node(k),
    ) && u.children[s.node(k)] == s.handles_of(s.children[k]) by {
        assert(r.children.contains_key(k));
        assert(s.node(k) == r.node(k));
        assert forall|i: int| 0 <= i < r.children[k].len() && r.children[k][i] != a implies (
        #[trigger] s.widgets.contains_key(r.children[k][i])) && s.widgets[r.children[k][i]].widget_id
            == r.widgets[r.children[k][i]].widget_id by {
            assert(r.listed(k, i));
            lemma_under_step(r, a, r.children[k][i]);
        }
        if k == pk {
            assert forall|i: int| 0 <= i < r.children[k].len() && i != ci implies r.children[k][i]
                != a by {
                assert(r.listed(k, i));
            }
            assert(s.handles_of(s.children[k]) =~= r.handles_of(r.children[k]).remove(ci));
        } else {
            assert forall|i: int| 0 <= i < r.children[k].len() implies r.children[k][i] != a by {
                assert(r.listed(k, i));
            }
            if r.node(k) == parent {
                lemma_nodes_differ(r, k, pk);
            }
            assert(s.handles_of(s.children[k]) =~= r.handles_of(r.children[k]));
        }
    }
}

} // verus!
