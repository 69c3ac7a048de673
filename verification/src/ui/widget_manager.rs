//! The widget identity registry.
//!
//! The script names widgets by strings of its own choosing; the native toolkit
//! names them by handles. The registry maps one to the other in both
//! directions and records, for every parent, the ordered list of its children.
//! Its model is [`RegistryView`]; [`RegistryView::wf`] is the invariant that
//! every operation keeps.

use std::collections::HashMap;
use vstd::hash_map::StringHashMap;
use vstd::prelude::*;

use crate::ipc::commands::{WidgetKind, WidgetKindView};
use crate::text::same_text;

verus! {

/// Key of the child list of the implicit root container.
pub const ROOT_KEY: &'static str = "__root__";

/// The characters of [`ROOT_KEY`].
pub open spec fn root_key() -> Seq<char> {
    "__root__"@
}

/// The key under which the children of a widget with parent `parent_id` are listed.
pub open spec fn parent_key_of(parent_id: Option<Seq<char>>) -> Seq<char> {
    match parent_id {
        Some(p) => p,
        None => root_key(),
    }
}

/// Handle by which the native toolkit names a node of the live tree.
#[derive(Debug, Clone, Copy, PartialEq, Eq, Hash, Structural)]
pub struct NativeHandle(pub u64);

/// What the registry records about one widget.
#[derive(Debug, Clone, PartialEq, Eq)]
pub struct WidgetInfo {
    /// The native handle assigned when the widget was inserted.
    pub widget_id: NativeHandle,
    /// What kind of widget this is.
    pub kind: WidgetKind,
    /// The parent's name; `None` means the root container.
    pub parent_id: Option<String>,
    /// Position in the parent's list of children.
    pub child_index: usize,
}

/// Mathematical value of a [`WidgetInfo`].
pub ghost struct WidgetInfoView {
    pub widget_id: NativeHandle,
    pub kind: WidgetKindView,
    pub parent_id: Option<Seq<char>>,
    pub child_index: nat,
}

impl View for WidgetInfo {
    type V = WidgetInfoView;

    open spec fn view(&self) -> WidgetInfoView {
        WidgetInfoView {
            widget_id: self.widget_id,
            kind: self.kind@,
            parent_id: option_name(self.parent_id),
            child_index: self.child_index as nat,
        }
    }
}

impl WidgetInfo {
    /// A second copy of this record.
    pub fn duplicate(&self) -> (copy: WidgetInfo)
        ensures
            copy@ == self@,
    {
        WidgetInfo {
            widget_id: self.widget_id,
            kind: self.kind.duplicate(),
            parent_id: match &self.parent_id {
                Some(p) => Some(p.clone()),
                None => None,
            },
            child_index: self.child_index,
        }
    }
}

/// Model of the registry: the records, the child lists, the reverse index
/// from handles to names, and each widget's depth: the number of widgets on
/// the way from it to the top of its tree, itself among them.
pub ghost struct RegistryView {
    pub widgets: Map<Seq<char>, WidgetInfoView>,
    pub children: Map<Seq<char>, Seq<Seq<char>>>,
    pub handles: Map<NativeHandle, Seq<char>>,
    pub depth: Map<Seq<char>, nat>,
}

impl RegistryView {
    /// The registry right after start-up: no widget, and an empty root list.
    pub open spec fn initial() -> RegistryView {
        RegistryView {
            widgets: Map::empty(),
            children: Map::empty().insert(root_key(), Seq::empty()),
            handles: Map::empty(),
            depth: Map::empty(),
        }
    }

    /// The key of the list that holds widget `x`.
    pub open spec fn parent_key(self, x: Seq<char>) -> Seq<char> {
        parent_key_of(self.widgets[x].parent_id)
    }

    /// Depth of `k`: 0 for a key that is no widget, such as the root key; one
    /// more than its parent's for a widget.
    pub open spec fn rank(self, k: Seq<char>) -> nat {
        if self.widgets.contains_key(k) {
            self.depth[k]
        } else {
            0
        }
    }

    /// Number of children listed under `k`; 0 where there is no list.
    pub open spec fn child_count(self, k: Seq<char>) -> nat {
        if self.children.contains_key(k) {
            self.children[k].len()
        } else {
            0
        }
    }

    /// Widget `x` has a list of its own, sits in its parent's list at its
    /// `child_index`, is found again by its handle, and lies one level below
    /// its parent.
    pub open spec fn placed(self, x: Seq<char>) -> bool {
        let w = self.widgets[x];
        let pk = self.parent_key(x);
        &&& self.children.contains_key(x)
        &&& self.children.contains_key(pk)
        &&& w.child_index < self.children[pk].len()
        &&& self.children[pk][w.child_index as int] == x
        &&& self.handles.contains_key(w.widget_id)
        &&& self.handles[w.widget_id] == x
        &&& self.depth.contains_key(x)
        &&& self.depth[x] == self.rank(pk) + 1
    }

    /// Entry `i` of the list under `k` is a registered widget that names `k`
    /// as its parent and `i` as its position.
    pub open spec fn listed(self, k: Seq<char>, i: int) -> bool {
        let c = self.children[k][i];
        &&& self.widgets.contains_key(c)
        &&& self.parent_key(c) == k
        &&& self.widgets[c].child_index == i
    }

    /// The registry invariant.
    ///
    /// The root and every widget have a child list; every widget is placed;
    /// every list entry is a widget placed there, so positions are dense and
    /// no name is listed twice; the reverse index holds exactly the handles in
    /// use; depths grow by one from parent to child, so no chain of parents
    /// comes back to where it began; and no widget is called like the root key.
    ///
    /// A list may stand under a key that is neither the root key nor a
    /// widget: the name of a parent that was never registered itself.
    pub open spec fn wf(self) -> bool {
        &&& self.widgets.dom().finite()
        &&& self.depth.dom() == self.widgets.dom()
        &&& !self.widgets.contains_key(root_key())
        &&& self.children.contains_key(root_key())
        &&& forall|x: Seq<char>| #[trigger] self.widgets.contains_key(x) ==> self.placed(x)
        &&& forall|k: Seq<char>, i: int|
            self.children.contains_key(k) && 0 <= i < self.children[k].len() ==> #[trigger] self.listed(
                k,
                i,
            )
        &&& forall|h: NativeHandle| #[trigger]
            self.handles.contains_key(h) ==> self.widgets.contains_key(self.handles[h])
                && self.widgets[self.handles[h]].widget_id == h
    }

    /// Whether a widget named `id` may be recorded under `parent_id`: the name
    /// is free and is not the root key, and the parent does not lie under
    /// `id`, which it can only where `id` was named as a parent before.
    pub open spec fn admits(self, id: Seq<char>, parent_id: Option<Seq<char>>) -> bool {
        &&& id != root_key()
        &&& !self.widgets.contains_key(id)
        &&& !self.under(id, parent_key_of(parent_id))
    }

    /// Whether a widget `id` with record `info` can be added: it is admitted
    /// under its parent, and its handle is free.
    pub open spec fn accepts(self, id: Seq<char>, info: WidgetInfoView) -> bool {
        &&& self.admits(id, info.parent_id)
        &&& !self.handles.contains_key(info.widget_id)
    }

    /// The list under `k`; empty where there is none.
    pub open spec fn list(self, k: Seq<char>) -> Seq<Seq<char>> {
        if self.children.contains_key(k) {
            self.children[k]
        } else {
            Seq::empty()
        }
    }

    /// The registry after widget `id` was appended to its parent's list. The
    /// record is stored with the position at which it was appended. The
    /// parent's list is made where the parent had none, and so is the
    /// widget's own; a list that stood under the widget's name stays, and
    /// what hangs from it moves down with the widget.
    pub open spec fn with_widget(self, id: Seq<char>, info: WidgetInfoView) -> RegistryView {
        let pk = parent_key_of(info.parent_id);
        let stored = WidgetInfoView { child_index: self.list(pk).len(), ..info };
        let level = self.rank(pk) + 1;
        RegistryView {
            widgets: self.widgets.insert(id, stored),
            children: self.children.insert(id, self.list(id)).insert(pk, self.list(pk).push(id)),
            handles: self.handles.insert(info.widget_id, id),
            depth: Map::new(
                |x: Seq<char>| x == id || self.depth.contains_key(x),
                |x: Seq<char>|
                    if x == id {
                        level
                    } else if self.under(id, x) {
                        self.depth[x] + level
                    } else {
                        self.depth[x]
                    },
            ),
        }
    }

    /// What registering `id` with `info` leaves: the registry with the widget
    /// where it is accepted, the registry as it was where it is not.
    pub open spec fn register(self, id: Seq<char>, info: WidgetInfoView) -> RegistryView {
        if self.accepts(id, info) {
            self.with_widget(id, info)
        } else {
            self
        }
    }

    /// The registry after the widgets `ids`, with the records `infos`, were
    /// registered one after another.
    pub open spec fn register_all(
        self,
        ids: Seq<Seq<char>>,
        infos: Seq<WidgetInfoView>,
    ) -> RegistryView
        decreases ids.len(),
    {
        if ids.len() == 0 {
            self
        } else {
            self.register_all(ids.drop_last(), infos.drop_last()).register(ids.last(), infos.last())
        }
    }

    /// The key reached from `x` after `n` steps towards the root. A key that
    /// is no widget, such as the root key, is its own parent.
    pub open spec fn ancestor(self, x: Seq<char>, n: nat) -> Seq<char>
        decreases n,
    {
        if n == 0 {
            x
        } else if self.widgets.contains_key(x) {
            self.ancestor(self.parent_key(x), (n - 1) as nat)
        } else {
            x
        }
    }

    /// `x` is `a` or lies below `a`.
    pub open spec fn under(self, a: Seq<char>, x: Seq<char>) -> bool {
        exists|n: nat| #[trigger] self.ancestor(x, n) == a
    }

    /// The record of a widget that stays when the subtree of `a` goes: a
    /// sibling behind `a` moves up by one position, every other record is
    /// unchanged.
    pub open spec fn shifted(self, a: Seq<char>, x: Seq<char>) -> WidgetInfoView {
        let w = self.widgets[x];
        if self.parent_key(x) == self.parent_key(a) && w.child_index > self.widgets[a].child_index {
            WidgetInfoView { child_index: (w.child_index - 1) as nat, ..w }
        } else {
            w
        }
    }

    /// The registry without the widget `a` and everything below it: their
    /// records, lists, handles and depths are gone, `a` has left its parent's
    /// list, and the siblings behind it have moved up.
    pub open spec fn without_subtree(self, a: Seq<char>) -> RegistryView {
        let pk = self.parent_key(a);
        RegistryView {
            widgets: Map::new(
                |x: Seq<char>| self.widgets.contains_key(x) && !self.under(a, x),
                |x: Seq<char>| self.shifted(a, x),
            ),
            children: Map::new(
                |k: Seq<char>| self.children.contains_key(k) && !self.under(a, k),
                |k: Seq<char>|
                    if k == pk {
                        self.children[k].remove(self.widgets[a].child_index as int)
                    } else {
                        self.children[k]
                    },
            ),
            handles: Map::new(
                |h: NativeHandle| self.handles.contains_key(h) && !self.under(a, self.handles[h]),
                |h: NativeHandle| self.handles[h],
            ),
            depth: Map::new(
                |x: Seq<char>| self.depth.contains_key(x) && !self.under(a, x),
                |x: Seq<char>| self.depth[x],
            ),
        }
    }

    /// What removing `a` leaves: the registry without the subtree of `a`
    /// where `a` is registered, the registry as it was where it is not.
    pub open spec fn remove(self, a: Seq<char>) -> RegistryView {
        if self.widgets.contains_key(a) {
            self.without_subtree(a)
        } else {
            self
        }
    }
}

/// The initial registry is well formed.
pub proof fn lemma_initial_wf()
    ensures
        RegistryView::initial().wf(),
{
    let r = RegistryView::initial();
    assert(r.children[root_key()].len() == 0);
}

/// Walking towards the root never increases the depth.
pub proof fn lemma_ancestor_rank(r: RegistryView, x: Seq<char>, n: nat)
    requires
        r.wf(),
    ensures
        r.rank(r.ancestor(x, n)) <= r.rank(x),
    decreases n,
{
    if n > 0 && r.widgets.contains_key(x) {
        assert(r.placed(x));
        lemma_ancestor_rank(r, r.parent_key(x), (n - 1) as nat);
    }
}

/// A key that is no widget lies under itself only.
pub proof fn lemma_under_outside(r: RegistryView, a: Seq<char>, x: Seq<char>)
    requires
        !r.widgets.contains_key(x),
    ensures
        r.under(a, x) <==> x == a,
{
    if r.under(a, x) {
        let n = choose|n: nat| #[trigger] r.ancestor(x, n) == a;
        assert(r.ancestor(x, n) == x);
    }
    if x == a {
        assert(r.ancestor(x, 0) == a);
    }
}

/// A widget other than `a` lies under `a` exactly when its parent does.
pub proof fn lemma_under_step(r: RegistryView, a: Seq<char>, x: Seq<char>)
    requires
        r.widgets.contains_key(x),
        x != a,
    ensures
        r.under(a, x) <==> r.under(a, r.parent_key(x)),
{
    let pk = r.parent_key(x);
    if r.under(a, x) {
        let n = choose|n: nat| #[trigger] r.ancestor(x, n) == a;
        assert(n > 0);
        assert(r.ancestor(pk, (n - 1) as nat) == a);
    }
    if r.under(a, pk) {
        let n = choose|n: nat| #[trigger] r.ancestor(pk, n) == a;
        assert(r.ancestor(x, n + 1) == a);
    }
}

/// Every key lies under itself.
pub proof fn lemma_under_self(r: RegistryView, a: Seq<char>)
    ensures
        r.under(a, a),
{
    assert(r.ancestor(a, 0) == a);
}

/// The tree has no cycle: a widget's parent does not lie under the widget.
pub proof fn lemma_parent_not_under(r: RegistryView, a: Seq<char>)
    requires
        r.wf(),
        r.widgets.contains_key(a),
    ensures
        !r.under(a, r.parent_key(a)),
{
    let pk = r.parent_key(a);
    assert(r.placed(a));
    if r.under(a, pk) {
        let n = choose|n: nat| #[trigger] r.ancestor(pk, n) == a;
        lemma_ancestor_rank(r, pk, n);
    }
}

/// Registering a widget keeps the registry well formed.
pub proof fn lemma_register_wf(r: RegistryView, id: Seq<char>, info: WidgetInfoView)
    requires
        r.wf(),
    ensures
        r.register(id, info).wf(),
{
    if r.accepts(id, info) {
        let pk = parent_key_of(info.parent_id);
        let s = r.with_widget(id, info);
        let level = r.rank(pk) + 1;
        lemma_under_self(r, id);
        assert(pk != id);
        assert(s.children[pk] == r.list(pk).push(id));
        assert(s.children[id] == r.list(id));
        assert(s.depth.dom() =~= s.widgets.dom());
        assert forall|x: Seq<char>| #[trigger] s.widgets.contains_key(x) implies s.placed(x) by {
            if x == id {
                assert(s.parent_key(x) == pk);
                assert(s.rank(pk) == r.rank(pk));
            } else {
                assert(r.widgets.contains_key(x));
                assert(r.placed(x));
                let xpk = r.parent_key(x);
                assert(s.parent_key(x) == xpk);
                lemma_under_step(r, id, x);
                if r.under(id, x) {
                    if xpk != id {
                        if !r.widgets.contains_key(xpk) {
                            lemma_under_outside(r, id, xpk);
                        }
                    }
                }
            }
        }
        assert forall|k: Seq<char>, i: int|
            s.children.contains_key(k) && 0 <= i < s.children[k].len() implies #[trigger] s.listed(
            k,
            i,
        ) by {
            if k == pk {
                if i < r.list(pk).len() {
                    assert(r.listed(k, i));
                }
            } else {
                assert(r.children.contains_key(k));
                assert(r.listed(k, i));
            }
        }
        assert forall|h: NativeHandle| #[trigger] s.handles.contains_key(h) implies s.widgets.contains_key(
            s.handles[h],
        ) && s.widgets[s.handles[h]].widget_id == h by {
            if h != info.widget_id {
                assert(r.handles.contains_key(h));
            }
        }
    }
}

/// Under a name that no list stands under there is nothing but the name
/// itself.
pub proof fn lemma_under_unlisted(r: RegistryView, id: Seq<char>, x: Seq<char>, n: nat)
    requires
        r.wf(),
        !r.children.contains_key(id),
        r.ancestor(x, n) == id,
    ensures
        x == id,
    decreases n,
{
    if n > 0 && r.widgets.contains_key(x) {
        assert(r.placed(x));
        lemma_under_unlisted(r, id, r.parent_key(x), (n - 1) as nat);
    }
}

/// Removing a subtree keeps the registry well formed.
pub proof fn lemma_remove_wf(r: RegistryView, a: Seq<char>)
    requires
        r.wf(),
    ensures
        r.remove(a).wf(),
{
    if r.widgets.contains_key(a) {
        let s = r.without_subtree(a);
        let pk = r.parent_key(a);
        let ci = r.widgets[a].child_index as int;
        assert(r.placed(a));
        lemma_parent_not_under(r, a);
        lemma_under_outside(r, a, root_key());
        lemma_under_self(r, a);
        assert(s.widgets.dom().subset_of(r.widgets.dom()));
        vstd::set_lib::lemma_set_subset_finite(r.widgets.dom(), s.widgets.dom());
        assert(s.children.contains_key(pk));
        assert forall|x: Seq<char>| #[trigger] s.widgets.contains_key(x) implies s.placed(x) by {
            assert(r.placed(x));
            let xpk = r.parent_key(x);
            lemma_under_step(r, a, x);
            assert(s.parent_key(x) == xpk);
            assert(s.children.contains_key(xpk));
            assert(s.rank(xpk) == r.rank(xpk));
            let w = r.widgets[x];
            if xpk == pk {
                assert(w.child_index != ci);
            }
        }
        assert forall|k: Seq<char>, i: int|
            s.children.contains_key(k) && 0 <= i < s.children[k].len() implies #[trigger] s.listed(
            k,
            i,
        ) by {
            let j = if k == pk && i >= ci {
                i + 1
            } else {
                i
            };
            assert(r.listed(k, j));
            let c = r.children[k][j];
            assert(s.children[k][i] == c);
            if c == a {
                assert(r.listed(pk, ci));
            }
            lemma_under_step(r, a, c);
        }
        assert forall|h: NativeHandle| #[trigger] s.handles.contains_key(h) implies s.widgets.contains_key(
            s.handles[h],
        ) && s.widgets[s.handles[h]].widget_id == h by {
            assert(r.handles.contains_key(h));
        }
    }
}

/// The name held by an optional string.
pub open spec fn option_name(name: Option<String>) -> Option<Seq<char>> {
    match name {
        Some(p) => Some(p@),
        None => None,
    }
}

/// Append-only indexing: widgets created one after another under the same
/// parent are appended to its list in the order of the calls, and each gets
/// the position at which it was appended. Under a parent that had no child
/// the positions are 0, 1, 2 and so on.
///
/// The names must be new, never named as a parent, and distinct, and the
/// handles must be new and distinct: a creation that the registry does not
/// accept takes no position.
pub proof fn lemma_append_only_indexing(
    r: RegistryView,
    parent_id: Option<Seq<char>>,
    ids: Seq<Seq<char>>,
    infos: Seq<WidgetInfoView>,
)
    requires
        r.wf(),
        ids.len() == infos.len(),
        parent_id matches Some(p) ==> r.widgets.contains_key(p),
        ids.no_duplicates(),
        forall|i: int|
            0 <= i < ids.len() ==> ids[i] != root_key() && !r.widgets.contains_key(ids[i])
                && !r.children.contains_key(ids[i]),
        forall|i: int|
            0 <= i < infos.len() ==> (#[trigger] infos[i]).parent_id == parent_id
                && !r.handles.contains_key(infos[i].widget_id),
        forall|i: int, j: int|
            0 <= i < j < infos.len() ==> (#[trigger] infos[i]).widget_id != (
            #[trigger] infos[j]).widget_id,
    ensures
        r.register_all(ids, infos).wf(),
        r.register_all(ids, infos).children[parent_key_of(parent_id)] == r.children[parent_key_of(
            parent_id,
        )] + ids,
        forall|i: int|
            0 <= i < ids.len() ==> r.register_all(ids, infos).widgets.contains_key(#[trigger] ids[i])
                && r.register_all(ids, infos).widgets[ids[i]].child_index == r.children[parent_key_of(
                parent_id,
            )].len() + i,
        forall|x: Seq<char>| #[trigger]
            r.register_all(ids, infos).widgets.contains_key(x) <==> r.widgets.contains_key(x)
                || ids.contains(x),
        forall|k: Seq<char>| #[trigger]
            r.register_all(ids, infos).children.contains_key(k) <==> r.children.contains_key(k)
                || ids.contains(k),
        forall|h: NativeHandle| #[trigger]
            r.register_all(ids, infos).handles.contains_key(h) <==> r.handles.contains_key(h) || exists|
                i: int,
            |
                0 <= i < infos.len() && (#[trigger] infos[i]).widget_id == h,
    decreases ids.len(),
{
    let pk = parent_key_of(parent_id);
    let s = r.register_all(ids, infos);
    if ids.len() == 0 {
        assert(r.children[pk] + ids =~= r.children[pk]);
    } else {
        let n = ids.len() - 1;
        let front = ids.drop_last();
        let front_infos = infos.drop_last();
        let id = ids.last();
        let info = infos.last();
        assert forall|i: int, j: int| 0 <= i < j < front_infos.len() implies (
        #[trigger] front_infos[i]).widget_id != (#[trigger] front_infos[j]).widget_id by {
            assert(front_infos[i] == infos[i] && front_infos[j] == infos[j]);
        }
        assert forall|i: int| 0 <= i < front_infos.len() implies (
        #[trigger] front_infos[i]).parent_id == parent_id && !r.handles.contains_key(
            front_infos[i].widget_id,
        ) by {
            assert(front_infos[i] == infos[i]);
        }
        lemma_append_only_indexing(r, parent_id, front, front_infos);
        let t = r.register_all(front, front_infos);
        assert(info == infos[n]);
        assert(id == ids[n]);
        assert(t.widgets.contains_key(id) <==> r.widgets.contains_key(id) || front.contains(id));
        assert(t.children.contains_key(id) <==> r.children.contains_key(id) || front.contains(id));
        assert(r.children.contains_key(pk)) by {
            if parent_id is Some {
                assert(r.placed(parent_id->0));
            }
        }
        assert(t.children.contains_key(pk));
        if t.under(id, pk) {
            let n = choose|n: nat| #[trigger] t.ancestor(pk, n) == id;
            lemma_under_unlisted(t, id, pk, n);
        }
        if front.contains(id) {
            let j = choose|j: int| 0 <= j < front.len() && front[j] == id;
            assert(ids[j] == id);
        }
        if t.handles.contains_key(info.widget_id) {
            let j = choose|j: int|
                0 <= j < front_infos.len() && (#[trigger] front_infos[j]).widget_id
                    == info.widget_id;
            assert(front_infos[j] == infos[j]);
        }
        assert(t.accepts(id, info));
        lemma_register_wf(t, id, info);
        assert(t.children.contains_key(pk));
        assert(pk != id);
        assert(s.children[pk] =~= r.children[pk] + ids);
        assert forall|i: int| 0 <= i < ids.len() implies s.widgets.contains_key(#[trigger] ids[i])
            && s.widgets[ids[i]].child_index == r.children[pk].len() + i by {
            if i < n {
                assert(front[i] == ids[i]);
            }
        }
        assert forall|x: Seq<char>| #[trigger]
            s.widgets.contains_key(x) <==> r.widgets.contains_key(x) || ids.contains(x) by {
            if front.contains(x) {
                let j = choose|j: int| 0 <= j < front.len() && front[j] == x;
                assert(ids[j] == x);
            }
            if ids.contains(x) && x != id {
                let j = choose|j: int| 0 <= j < ids.len() && ids[j] == x;
                assert(front[j] == x);
            }
        }
        assert forall|k: Seq<char>| #[trigger]
            s.children.contains_key(k) <==> r.children.contains_key(k) || ids.contains(k) by {
            if front.contains(k) {
                let j = choose|j: int| 0 <= j < front.len() && front[j] == k;
                assert(ids[j] == k);
            }
            if ids.contains(k) && k != id {
                let j = choose|j: int| 0 <= j < ids.len() && ids[j] == k;
                assert(front[j] == k);
            }
        }
        assert forall|h: NativeHandle| #[trigger]
            s.handles.contains_key(h) <==> r.handles.contains_key(h) || exists|i: int|
                0 <= i < infos.len() && (#[trigger] infos[i]).widget_id == h by {
            if t.handles.contains_key(h) && !r.handles.contains_key(h) {
                let j = choose|j: int|
                    0 <= j < front_infos.len() && (#[trigger] front_infos[j]).widget_id == h;
                assert(infos[j].widget_id == h);
            }
            if exists|i: int| 0 <= i < infos.len() && (#[trigger] infos[i]).widget_id == h {
                let j = choose|j: int| 0 <= j < infos.len() && (#[trigger] infos[j]).widget_id == h;
                if j < n {
                    assert(front_infos[j].widget_id == h);
                }
            }
        }
    }
}

/// Idempotent removal: removing a name that is not registered changes
/// nothing, and removing a name a second time changes nothing more.
pub proof fn lemma_remove_idempotent(r: RegistryView, a: Seq<char>)
    ensures
        !r.widgets.contains_key(a) ==> r.remove(a) == r,
        r.remove(a).remove(a) == r.remove(a),
{
    lemma_under_self(r, a);
}

/// Subtree removal is complete: once `a` is removed, neither `a` nor any
/// widget below it has a record, a list or a handle, and the list of `a`'s
/// former parent no longer names `a`.
pub proof fn lemma_remove_complete(r: RegistryView, a: Seq<char>, x: Seq<char>)
    requires
        r.wf(),
        r.widgets.contains_key(a),
        r.widgets.contains_key(x),
        r.under(a, x),
    ensures
        !r.remove(a).widgets.contains_key(x),
        !r.remove(a).children.contains_key(x),
        !r.remove(a).handles.contains_key(r.widgets[x].widget_id),
        r.remove(a).children.contains_key(r.parent_key(a)),
        !r.remove(a).children[r.parent_key(a)].contains(a),
{
    let s = r.remove(a);
    let pk = r.parent_key(a);
    assert(r.placed(a));
    assert(r.placed(x));
    lemma_parent_not_under(r, a);
    lemma_under_outside(r, a, root_key());
    lemma_remove_wf(r, a);
    lemma_under_self(r, a);
    if s.children[pk].contains(a) {
        let i = choose|i: int| 0 <= i < s.children[pk].len() && s.children[pk][i] == a;
        assert(s.listed(pk, i));
    }
}

/// Removal leaves the rest alone: a widget that does not lie under `a` keeps
/// its record, but for the position of a sibling behind `a`, which moves up
/// by one.
pub proof fn lemma_remove_keeps_others(r: RegistryView, a: Seq<char>, x: Seq<char>)
    requires
        r.wf(),
        r.widgets.contains_key(a),
        r.widgets.contains_key(x),
        !r.under(a, x),
    ensures
        r.remove(a).widgets.contains_key(x),
        r.remove(a).widgets[x].widget_id == r.widgets[x].widget_id,
        r.remove(a).widgets[x].kind == r.widgets[x].kind,
        r.remove(a).widgets[x].parent_id == r.widgets[x].parent_id,
        r.remove(a).widgets[x].child_index == if r.parent_key(x) == r.parent_key(a)
            && r.widgets[x].child_index > r.widgets[a].child_index {
            (r.widgets[x].child_index - 1) as nat
        } else {
            r.widgets[x].child_index
        },
{
}

/// A widget that is created and removed again leaves no trace: where the
/// name headed no list and the parent's list was there, the registry is as
/// it was before the creation, and the name is as free as it was.
pub proof fn lemma_register_then_remove(r: RegistryView, id: Seq<char>, info: WidgetInfoView)
    requires
        r.wf(),
        r.accepts(id, info),
        !r.children.contains_key(id),
        r.children.contains_key(parent_key_of(info.parent_id)),
    ensures
        r.register(id, info).remove(id) == r,
{
    let pk = parent_key_of(info.parent_id);
    let s = r.with_widget(id, info);
    let t = s.without_subtree(id);
    lemma_register_wf(r, id, info);
    lemma_under_self(s, id);
    assert(s.placed(id));
    assert(s.parent_key(id) == pk);
    assert(pk != id);
    // nothing but the new widget lies under its name
    assert forall|x: Seq<char>| s.under(id, x) implies x == id by {
        let n = choose|n: nat| #[trigger] s.ancestor(x, n) == id;
        lemma_fresh_leaf(r, id, info, x, n);
    }
    assert(t.widgets =~= r.widgets) by {
        assert forall|x: Seq<char>| r.widgets.contains_key(x) implies #[trigger] t.widgets[x]
            == r.widgets[x] by {
            assert(r.placed(x));
        }
    }
    assert(s.children[pk].remove(r.children[pk].len() as int) =~= r.children[pk]);
    assert(t.children =~= r.children);
    assert(t.handles =~= r.handles) by {
        assert forall|h: NativeHandle| r.handles.contains_key(h) implies s.handles[h] != id by {
            assert(r.widgets.contains_key(r.handles[h]));
        }
    }
    assert(t.depth =~= r.depth) by {
        assert forall|x: Seq<char>| r.depth.contains_key(x) implies !r.under(id, x) by {
            assert(r.widgets.contains_key(x));
            if r.under(id, x) {
                let n = choose|n: nat| #[trigger] r.ancestor(x, n) == id;
                lemma_under_unlisted(r, id, x, n);
            }
        }
    }
}

/// A widget registered under a name that headed no list has nothing below it.
pub proof fn lemma_fresh_leaf(
    r: RegistryView,
    id: Seq<char>,
    info: WidgetInfoView,
    x: Seq<char>,
    n: nat,
)
    requires
        r.wf(),
        r.accepts(id, info),
        !r.children.contains_key(id),
        r.with_widget(id, info).ancestor(x, n) == id,
    ensures
        x == id,
    decreases n,
{
    let s = r.with_widget(id, info);
    if x != id && n > 0 && s.widgets.contains_key(x) {
        assert(r.placed(x));
        assert(s.parent_key(x) == r.parent_key(x));
        lemma_fresh_leaf(r, id, info, r.parent_key(x), (n - 1) as nat);
    }
}

/// Widget `x` has lost its parent: the parent was registered in `r0` and is
/// no longer in `cur`.
pub open spec fn orphan(r0: RegistryView, cur: RegistryView, x: Seq<char>) -> bool {
    let p = r0.parent_key(x);
    r0.widgets.contains_key(p) && !cur.widgets.contains_key(p)
}

/// Widget `x` is still recorded but has to go: it is `a`, or its parent is gone.
pub open spec fn due(r0: RegistryView, a: Seq<char>, cur: RegistryView, x: Seq<char>) -> bool {
    cur.widgets.contains_key(x) && (x == a || orphan(r0, cur, x))
}

/// Widget `x`, which is gone, was rightly taken out: it lies under `a`, and
/// unless it is `a` its parent is gone too.
pub open spec fn taken(r0: RegistryView, a: Seq<char>, cur: RegistryView, x: Seq<char>) -> bool {
    r0.under(a, x) && (x == a || orphan(r0, cur, x))
}

/// The state `cur` of a registry that started as `r0` while the subtree of
/// `a` is taken out of it, with the names in `work` still to go.
///
/// What is left in `cur` is as it was in `r0`; what is gone lies under `a`;
/// and `work` lists, once each, the widgets that are due.
pub open spec fn purging(
    r0: RegistryView,
    a: Seq<char>,
    cur: RegistryView,
    work: Seq<Seq<char>>,
) -> bool {
    &&& cur.widgets.dom().finite()
    &&& cur.depth.dom() == cur.widgets.dom()
    &&& forall|x: Seq<char>| #[trigger]
        cur.widgets.contains_key(x) ==> r0.widgets.contains_key(x) && cur.widgets[x]
            == r0.widgets[x] && cur.depth[x] == r0.depth[x]
    &&& forall|x: Seq<char>|
        r0.widgets.contains_key(x) && !cur.widgets.contains_key(x) ==> #[trigger] taken(
            r0,
            a,
            cur,
            x,
        )
    &&& forall|k: Seq<char>| #[trigger]
        cur.children.contains_key(k) <==> (r0.children.contains_key(k) && (r0.widgets.contains_key(k)
            ==> cur.widgets.contains_key(k)))
    &&& forall|k: Seq<char>| #[trigger]
        cur.children.contains_key(k) ==> cur.children[k] == r0.children[k]
    &&& forall|h: NativeHandle| #[trigger]
        cur.handles.contains_key(h) <==> (r0.handles.contains_key(h) && cur.widgets.contains_key(
            r0.handles[h],
        ))
    &&& forall|h: NativeHandle| #[trigger]
        cur.handles.contains_key(h) ==> cur.handles[h] == r0.handles[h]
    &&& work.no_duplicates()
    &&& forall|i: int| 0 <= i < work.len() ==> #[trigger] due(r0, a, cur, work[i])
    &&& forall|x: Seq<char>| #[trigger] due(r0, a, cur, x) ==> work.contains(x)
}

/// Before anything is taken out, only `a` itself is due.
pub proof fn lemma_purging_start(r0: RegistryView, a: Seq<char>)
    requires
        r0.wf(),
        r0.widgets.contains_key(a),
    ensures
        purging(r0, a, r0, seq![a]),
{
    let work = seq![a];
    assert(work[0] == a);
    assert forall|x: Seq<char>| #[trigger] due(r0, a, r0, x) implies work.contains(x) by {
        assert(work[0] == x);
    }
}

/// Taking widget `c`, which is due, out of `cur` and putting its children on
/// the work list keeps the state of a purge.
pub proof fn lemma_purging_step(
    r0: RegistryView,
    a: Seq<char>,
    cur: RegistryView,
    base: Seq<Seq<char>>,
    c: Seq<char>,
    next: RegistryView,
)
    requires
        r0.wf(),
        r0.widgets.contains_key(a),
        purging(r0, a, cur, base.push(c)),
        next.widgets == cur.widgets.remove(c),
        next.children == cur.children.remove(c),
        next.handles == cur.handles.remove(r0.widgets[c].widget_id),
        next.depth == cur.depth.remove(c),
    ensures
        purging(r0, a, next, base + r0.children[c]),
        next.widgets.dom().len() < cur.widgets.dom().len(),
{
    let before = base.push(c);
    let kids = r0.children[c];
    let work = base + kids;
    let n = base.len() as int;
    assert(before[n] == c);
    assert(due(r0, a, cur, before[n]));
    assert(cur.widgets.contains_key(c));
    assert(r0.placed(c));
    assert(c != root_key());
    assert(r0.children.contains_key(c));
    // c lies under a
    if c == a {
        lemma_under_self(r0, a);
    } else {
        let p = r0.parent_key(c);
        assert(taken(r0, a, cur, p));
        lemma_under_step(r0, a, c);
    }
    assert(r0.under(a, c));
    lemma_parent_not_under(r0, c);
    assert forall|x: Seq<char>|
        r0.widgets.contains_key(x) && !next.widgets.contains_key(x) implies #[trigger] taken(
        r0,
        a,
        next,
        x,
    ) by {
        if x != c {
            assert(taken(r0, a, cur, x));
        }
    }
    assert forall|h: NativeHandle| #[trigger]
        next.handles.contains_key(h) <==> (r0.handles.contains_key(h) && next.widgets.contains_key(
            r0.handles[h],
        )) by {
        if r0.handles.contains_key(h) {
            assert(r0.widgets[r0.handles[h]].widget_id == h);
        }
    }
    // the children of c are recorded, and none of them was due before
    assert forall|i: int| 0 <= i < kids.len() implies next.widgets.contains_key(kids[i]) && orphan(
        r0,
        next,
        kids[i],
    ) && !before.contains(kids[i]) by {
        let k = kids[i];
        assert(r0.listed(c, i));
        if !cur.widgets.contains_key(k) {
            assert(taken(r0, a, cur, k));
            if k == a {
                lemma_parent_not_under(r0, a);
            }
        }
        if k == c {
            lemma_under_self(r0, c);
        }
        if before.contains(k) {
            let j = choose|j: int| 0 <= j < before.len() && before[j] == k;
            assert(due(r0, a, cur, before[j]));
            if k == a {
                lemma_parent_not_under(r0, a);
            }
        }
    }
    assert forall|i: int| 0 <= i < work.len() implies #[trigger] due(r0, a, next, work[i]) by {
        if i < n {
            assert(before[i] == base[i]);
            assert(due(r0, a, cur, before[i]));
            assert(before[i] != before[n]);
        } else {
            assert(work[i] == kids[i - n]);
        }
    }
    assert forall|i: int, j: int| 0 <= i < work.len() && 0 <= j < work.len() && i != j implies work[i]
        != work[j] by {
        if i < n && j < n {
            assert(before[i] == base[i] && before[j] == base[j]);
        } else if i >= n && j >= n {
            assert(r0.listed(c, i - n));
            assert(r0.listed(c, j - n));
        } else if i < n {
            assert(before[i] == base[i]);
            assert(work[j] == kids[j - n]);
        } else {
            assert(before[j] == base[j]);
            assert(work[i] == kids[i - n]);
        }
    }
    assert forall|x: Seq<char>| #[trigger] due(r0, a, next, x) implies work.contains(x) by {
        if due(r0, a, cur, x) {
            assert(before.contains(x));
            let j = choose|j: int| 0 <= j < before.len() && before[j] == x;
            assert(j < n);
            assert(work[j] == x);
        } else {
            assert(r0.parent_key(x) == c);
            assert(r0.placed(x));
            let i = r0.widgets[x].child_index as int;
            assert(work[n + i] == x);
        }
    }
}

/// The registry without the records of `a` and of what lies under it, before
/// `a` has left its parent's list.
pub open spec fn pruned(r0: RegistryView, a: Seq<char>) -> RegistryView {
    RegistryView {
        widgets: Map::new(
            |x: Seq<char>| r0.widgets.contains_key(x) && !r0.under(a, x),
            |x: Seq<char>| r0.widgets[x],
        ),
        children: Map::new(
            |k: Seq<char>| r0.children.contains_key(k) && !r0.under(a, k),
            |k: Seq<char>| r0.children[k],
        ),
        handles: Map::new(
            |h: NativeHandle| r0.handles.contains_key(h) && !r0.under(a, r0.handles[h]),
            |h: NativeHandle| r0.handles[h],
        ),
        depth: Map::new(
            |x: Seq<char>| r0.depth.contains_key(x) && !r0.under(a, x),
            |x: Seq<char>| r0.depth[x],
        ),
    }
}

/// In a finished purge, whatever lies under `a` is gone.
pub proof fn lemma_purging_closed(
    r0: RegistryView,
    a: Seq<char>,
    cur: RegistryView,
    x: Seq<char>,
    n: nat,
)
    requires
        r0.wf(),
        r0.widgets.contains_key(a),
        purging(r0, a, cur, Seq::empty()),
        r0.ancestor(x, n) == a,
    ensures
        !cur.widgets.contains_key(x),
    decreases n,
{
    let work = Seq::<Seq<char>>::empty();
    if cur.widgets.contains_key(x) {
        if due(r0, a, cur, x) {
            assert(work.contains(x));
        }
        assert(x != a);
        assert(n > 0);
        let p = r0.parent_key(x);
        assert(r0.ancestor(p, (n - 1) as nat) == a);
        if r0.widgets.contains_key(p) {
            lemma_purging_closed(r0, a, cur, p, (n - 1) as nat);
        }
    }
}

/// A finished purge leaves exactly the pruned registry.
pub proof fn lemma_purging_end(r0: RegistryView, a: Seq<char>, cur: RegistryView)
    requires
        r0.wf(),
        r0.widgets.contains_key(a),
        purging(r0, a, cur, Seq::empty()),
    ensures
        cur == pruned(r0, a),
{
    let goal = pruned(r0, a);
    assert forall|x: Seq<char>| cur.widgets.contains_key(x) <==> goal.widgets.contains_key(x) by {
        if r0.widgets.contains_key(x) {
            if cur.widgets.contains_key(x) {
                if r0.under(a, x) {
                    let n = choose|n: nat| #[trigger] r0.ancestor(x, n) == a;
                    lemma_purging_closed(r0, a, cur, x, n);
                }
            } else {
                assert(taken(r0, a, cur, x));
            }
        }
    }
    assert(cur.widgets =~= goal.widgets);
    assert(cur.depth =~= goal.depth);
    assert forall|k: Seq<char>| cur.children.contains_key(k) <==> goal.children.contains_key(k) by {
        if !r0.widgets.contains_key(k) {
            lemma_under_outside(r0, a, k);
        }
    }
    assert(cur.children =~= goal.children);
    assert(cur.handles =~= goal.handles);
}

/// The names held by a list of strings.
pub open spec fn names(list: Seq<String>) -> Seq<Seq<char>> {
    Seq::new(list.len(), |i: int| list[i]@)
}

/// A second copy of a list of names.
pub fn duplicate_names(list: &Vec<String>) -> (copy: Vec<String>)
    ensures
        copy@ == list@,
{
    let mut copy: Vec<String> = Vec::new();
    let mut i: usize = 0;
    while i < list.len()
        invariant
            i <= list.len(),
            copy@ == list@.take(i as int),
        decreases list.len() - i,
    {
        copy.push(list[i].clone());
        i += 1;
    }
    copy
}

/// Maps script-chosen widget names to native handles and back, and keeps the
/// ordered child list of every parent.
pub struct WidgetManager {
    /// The record of every registered widget, by name.
    pub widgets: StringHashMap<WidgetInfo>,
    /// The ordered names of the children of the root (under [`ROOT_KEY`]), of
    /// every registered widget, and of every name that was given as a parent.
    pub parent_to_children: StringHashMap<Vec<String>>,
    /// The name registered for each native handle in use.
    pub handles: HashMap<u64, String>,
    /// Depth of every widget in its tree.
    pub depth: Ghost<Map<Seq<char>, nat>>,
}

impl View for WidgetManager {
    type V = RegistryView;

    open spec fn view(&self) -> RegistryView {
        RegistryView {
            widgets: Map::new(
                |k: Seq<char>| self.widgets@.contains_key(k),
                |k: Seq<char>| self.widgets@[k]@,
            ),
            children: Map::new(
                |k: Seq<char>| self.parent_to_children@.contains_key(k),
                |k: Seq<char>| names(self.parent_to_children@[k]@),
            ),
            handles: Map::new(
                |h: NativeHandle| self.handles@.contains_key(h.0),
                |h: NativeHandle| self.handles@[h.0]@,
            ),
            depth: self.depth@,
        }
    }
}

impl WidgetManager {
    /// The registry is well formed.
    pub open spec fn wf(&self) -> bool {
        self@.wf()
    }

    /// An empty registry: no widget, and an empty list for the root.
    pub fn new() -> (manager: WidgetManager)
        ensures
            manager.wf(),
            manager@ == RegistryView::initial(),
    {
        let mut parent_to_children: StringHashMap<Vec<String>> = StringHashMap::new();
        parent_to_children.insert(ROOT_KEY.to_owned(), Vec::new());
        let manager = WidgetManager {
            widgets: StringHashMap::new(),
            parent_to_children,
            handles: HashMap::new(),
            depth: Ghost(Map::empty()),
        };
        proof {
            lemma_initial_wf();
            let r = RegistryView::initial();
            assert(manager@.widgets =~= r.widgets);
            assert(ROOT_KEY@ == root_key());
            assert(names(Seq::<String>::empty()) =~= Seq::<Seq<char>>::empty());
            assert(manager@.children =~= r.children);
            assert(manager@.handles =~= r.handles);
        }
        manager
    }

    /// The record registered under `id`, if there is one.
    pub fn get(&self, id: &str) -> (found: Option<&WidgetInfo>)
        ensures
            match found {
                Some(info) => self@.widgets.contains_key(id@) && info@ == self@.widgets[id@],
                None => !self@.widgets.contains_key(id@),
            },
    {
        self.widgets.get(id)
    }

    /// The name registered for the native handle `handle`, if there is one.
    pub fn id_of(&self, handle: NativeHandle) -> (found: Option<String>)
        ensures
            match found {
                Some(id) => self@.handles.contains_key(handle) && id@ == self@.handles[handle],
                None => !self@.handles.contains_key(handle),
            },
    {
        broadcast use vstd::std_specs::hash::group_hash_axioms;

        match self.handles.get(&handle.0) {
            Some(id) => Some(id.clone()),
            None => None,
        }
    }

    /// Number of children listed under `parent_key`; 0 where there is no such list.
    pub fn current_child_count(&self, parent_key: &str) -> (count: usize)
        ensures
            count == self@.child_count(parent_key@),
    {
        match self.parent_to_children.get(parent_key) {
            Some(children) => children.len(),
            None => 0,
        }
    }

    /// The position the next child of `parent_key` will get: children are
    /// appended, so it is the current length of the list.
    pub fn next_child_index(&self, parent_key: &str) -> (index: usize)
        ensures
            index == self@.child_count(parent_key@),
    {
        self.current_child_count(parent_key)
    }

    /// Whether `key` is `id` or lies below `id`.
    pub fn lies_under(&self, id: &str, key: &str) -> (yes: bool)
        requires
            self.wf(),
        ensures
            yes == self@.under(id@, key@),
    {
        let mut cur: String = key.to_owned();
        loop
            invariant
                self.wf(),
                self@.under(id@, key@) == self@.under(id@, cur@),
            decreases self@.rank(cur@),
        {
            if same_text(cur.as_str(), id) {
                proof {
                    lemma_under_self(self@, id@);
                }
                return true;
            }
            let next: String = match self.widgets.get(cur.as_str()) {
                Some(info) => match &info.parent_id {
                    Some(p) => p.clone(),
                    None => ROOT_KEY.to_owned(),
                },
                None => {
                    proof {
                        lemma_under_outside(self@, id@, cur@);
                    }
                    return false;
                },
            };
            proof {
                assert(self@.widgets.contains_key(cur@));
                assert(self@.placed(cur@));
                assert(next@ == self@.parent_key(cur@));
                lemma_under_step(self@, id@, cur@);
            }
            cur = next;
        }
    }

    /// Whether a widget named `id` may be recorded under `parent_id`.
    pub fn admits(&self, id: &str, parent_id: &Option<String>) -> (ok: bool)
        requires
            self.wf(),
        ensures
            ok == self@.admits(id@, option_name(*parent_id)),
    {
        if same_text(id, ROOT_KEY) || self.widgets.contains_key(id) {
            return false;
        }
        match parent_id {
            Some(p) => !self.lies_under(id, p.as_str()),
            None => !self.lies_under(id, ROOT_KEY),
        }
    }

    /// Records the widget `id`: appends it to its parent's list and gives it
    /// a list of its own, each made where there was none. The record is
    /// stored with the position at which the widget was appended. Where the
    /// registry does not accept the widget, nothing changes.
    pub fn register_widget(&mut self, id: String, info: WidgetInfo)
        requires
            old(self).wf(),
        ensures
            final(self).wf(),
            final(self)@ == old(self)@.register(id@, info@),
    {
        broadcast use vstd::std_specs::hash::group_hash_axioms;

        if !self.admits(id.as_str(), &info.parent_id) || self.handles.contains_key(
            &info.widget_id.0,
        ) {
            return ;
        }
        let ghost before = self@;
        let parent_key: String = match &info.parent_id {
            Some(p) => p.clone(),
            None => ROOT_KEY.to_owned(),
        };
        assert(parent_key@ == parent_key_of(info@.parent_id));
        proof {
            lemma_under_self(before, id@);
        }
        let mut siblings = match self.parent_to_children.get(parent_key.as_str()) {
            Some(list) => duplicate_names(list),
            None => Vec::new(),
        };
        assert(names(siblings@) =~= before.list(parent_key@));
        let index = siblings.len();
        siblings.push(id.clone());
        assert(names(siblings@) =~= before.list(parent_key@).push(id@));
        assert(names(Seq::<String>::empty()) =~= Seq::<Seq<char>>::empty());
        if !self.parent_to_children.contains_key(id.as_str()) {
            self.parent_to_children.insert(id.clone(), Vec::new());
        }
        self.parent_to_children.insert(parent_key, siblings);
        let stored = WidgetInfo {
            widget_id: info.widget_id,
            kind: info.kind,
            parent_id: info.parent_id,
            child_index: index,
        };
        self.handles.insert(stored.widget_id.0, id.clone());
        self.depth = Ghost(before.with_widget(id@, info@).depth);
        self.widgets.insert(id, stored);
        proof {
            let after = before.with_widget(id@, info@);
            assert(self@.widgets =~= after.widgets);
            assert(self@.children =~= after.children);
            assert(self@.handles =~= after.handles);
            lemma_register_wf(before, id@, info@);
        }
    }

    /// Takes the widget `c` out of the records and puts its children on the
    /// work list.
    fn take_out(
        &mut self,
        c: &str,
        work: &mut Vec<String>,
        Ghost(r0): Ghost<RegistryView>,
        Ghost(a): Ghost<Seq<char>>,
    )
        requires
            r0.wf(),
            r0.widgets.contains_key(a),
            purging(r0, a, old(self)@, names(old(work)@).push(c@)),
        ensures
            purging(r0, a, final(self)@, names(final(work)@)),
            final(self)@.widgets.dom().len() < old(self)@.widgets.dom().len(),
    {
        broadcast use vstd::std_specs::hash::group_hash_axioms;

        let ghost cur = self@;
        let ghost base = names(work@);
        proof {
            let before = base.push(c@);
            assert(before[base.len() as int] == c@);
            assert(due(r0, a, cur, before[base.len() as int]));
            assert(cur.children.contains_key(c@));
        }
        let handle = match self.widgets.get(c) {
            Some(info) => info.widget_id,
            None => NativeHandle(0),
        };
        match self.parent_to_children.get(c) {
            Some(list) => {
                let mut i: usize = 0;
                while i < list.len()
                    invariant
                        i <= list.len(),
                        work@ == old(work)@ + list@.take(i as int),
                    decreases list.len() - i,
                {
                    work.push(list[i].clone());
                    i += 1;
                }
                assert(names(work@) =~= base + r0.children[c@]);
            },
            None => {},
        }
        self.widgets.remove(c);
        self.handles.remove(&handle.0);
        self.parent_to_children.remove(c);
        self.depth = Ghost(self.depth@.remove(c@));
        proof {
            let next = self@;
            assert(next.widgets =~= cur.widgets.remove(c@));
            assert(next.children =~= cur.children.remove(c@));
            assert(next.handles =~= cur.handles.remove(r0.widgets[c@].widget_id));
            assert(next.depth =~= cur.depth.remove(c@));
            lemma_purging_step(r0, a, cur, base, c@, next);
        }
    }

    /// Takes the entry at `position` out of the list under `parent_key`.
    fn unlink_child(&mut self, parent_key: &str, position: usize)
        requires
            old(self)@.children.contains_key(parent_key@),
            position < old(self)@.children[parent_key@].len(),
        ensures
            final(self)@ == (RegistryView {
                children: old(self)@.children.insert(
                    parent_key@,
                    old(self)@.children[parent_key@].remove(position as int),
                ),
                ..old(self)@
            }),
    {
        let ghost before = self@;
        let mut kept: Vec<String> = Vec::new();
        match self.parent_to_children.get(parent_key) {
            Some(list) => {
                let mut i: usize = 0;
                while i < list.len()
                    invariant
                        i <= list.len(),
                        position < list.len(),
                        kept@ == if i <= position {
                            list@.take(i as int)
                        } else {
                            list@.remove(position as int).take(i - 1)
                        },
                    decreases list.len() - i,
                {
                    if i != position {
                        kept.push(list[i].clone());
                    }
                    i += 1;
                }
                assert(kept@ == list@.remove(position as int));
                assert(names(kept@) =~= before.children[parent_key@].remove(position as int));
            },
            None => {},
        }
        self.parent_to_children.insert(parent_key.to_owned(), kept);
        proof {
            let after = RegistryView {
                children: before.children.insert(
                    parent_key@,
                    before.children[parent_key@].remove(position as int),
                ),
                ..before
            };
            assert(self@.widgets =~= after.widgets);
            assert(self@.children =~= after.children);
            assert(self@.handles =~= after.handles);
        }
    }

    /// Gives every child listed under `parent_key` its position in the list
    /// as `child_index`, after the widget `a` has left that list.
    fn recompute_parent_state(
        &mut self,
        parent_key: &str,
        Ghost(r0): Ghost<RegistryView>,
        Ghost(a): Ghost<Seq<char>>,
    )
        requires
            r0.wf(),
            r0.widgets.contains_key(a),
            parent_key@ == r0.parent_key(a),
            old(self)@ == (RegistryView {
                widgets: pruned(r0, a).widgets,
                ..r0.without_subtree(a)
            }),
        ensures
            final(self)@ == r0.without_subtree(a),
    {
        let ghost target = r0.without_subtree(a);
        let ghost pk = parent_key@;
        proof {
            lemma_remove_wf(r0, a);
            assert(r0.placed(a));
            lemma_parent_not_under(r0, a);
            lemma_under_outside(r0, a, root_key());
            assert(target.children.contains_key(pk));
        }
        let count = self.current_child_count(parent_key);
        let mut j: usize = 0;
        while j < count
            invariant
                r0.wf(),
                r0.widgets.contains_key(a),
                target == r0.without_subtree(a),
                target.wf(),
                pk == parent_key@,
                pk == r0.parent_key(a),
                target.children.contains_key(pk),
                count == target.children[pk].len(),
                j <= count,
                self@.children == target.children,
                self@.handles == target.handles,
                self@.depth == target.depth,
                self@.widgets.dom() == target.widgets.dom(),
                forall|x: Seq<char>| #[trigger]
                    self@.widgets.contains_key(x) ==> self@.widgets[x] == if r0.parent_key(x) == pk
                        && target.widgets[x].child_index < j {
                        target.widgets[x]
                    } else {
                        r0.widgets[x]
                    },
            decreases count - j,
        {
            let ghost cur = self@;
            let ghost child = target.children[pk][j as int];
            proof {
                assert(target.listed(pk, j as int));
                assert(cur.widgets.contains_key(child));
            }
            let name: String = match self.parent_to_children.get(parent_key) {
                Some(list) => list[j].clone(),
                None => String::new(),
            };
            assert(name@ == child);
            let moved = match self.widgets.get(name.as_str()) {
                Some(info) => WidgetInfo {
                    widget_id: info.widget_id,
                    kind: info.kind.duplicate(),
                    parent_id: match &info.parent_id {
                        Some(p) => Some(p.clone()),
                        None => None,
                    },
                    child_index: j,
                },
                None => WidgetInfo {
                    widget_id: NativeHandle(0),
                    kind: WidgetKind::Label,
                    parent_id: None,
                    child_index: j,
                },
            };
            assert(moved@ == target.widgets[child]);
            self.widgets.insert(name, moved);
            proof {
                assert(self@.widgets =~= cur.widgets.insert(child, target.widgets[child]));
                assert(self@.children =~= cur.children);
                assert(self@.handles =~= cur.handles);
                assert(self@.widgets.dom() =~= target.widgets.dom());
                assert forall|x: Seq<char>| #[trigger] self@.widgets.contains_key(x) implies self@.widgets[x]
                    == if r0.parent_key(x) == pk && target.widgets[x].child_index < j + 1 {
                    target.widgets[x]
                } else {
                    r0.widgets[x]
                } by {
                    if x != child {
                        assert(target.placed(x));
                    }
                }
            }
            j += 1;
        }
        proof {
            assert forall|x: Seq<char>| #[trigger] self@.widgets.contains_key(x) implies self@.widgets[x]
                == target.widgets[x] by {
                assert(target.placed(x));
            }
            assert(self@.widgets =~= target.widgets);
        }
    }

    /// Removes the widget `id` and everything below it: their records, lists
    /// and handles go, `id` leaves its parent's list, and the siblings behind
    /// it move up so that positions stay dense. Returns the record of `id` as
    /// it was, or `None`, with nothing changed, where `id` is not registered.
    pub fn remove_widget_subtree(&mut self, id: &str) -> (removed: Option<WidgetInfo>)
        requires
            old(self).wf(),
        ensures
            final(self).wf(),
            final(self)@ == old(self)@.remove(id@),
            match removed {
                Some(info) => old(self)@.widgets.contains_key(id@) && info@ == old(self)@.widgets[id@],
                None => !old(self)@.widgets.contains_key(id@),
            },
    {
        let removed = match self.widgets.get(id) {
            Some(info) => info.duplicate(),
            None => {
                return None;
            },
        };
        let ghost r0 = self@;
        let ghost a = id@;
        let parent_key: String = match &removed.parent_id {
            Some(p) => p.clone(),
            None => ROOT_KEY.to_owned(),
        };
        assert(parent_key@ == r0.parent_key(a));
        let mut work: Vec<String> = Vec::new();
        work.push(id.to_owned());
        proof {
            lemma_purging_start(r0, a);
            assert(names(work@) =~= seq![a]);
        }
        while work.len() > 0
            invariant
                r0.wf(),
                r0.widgets.contains_key(a),
                purging(r0, a, self@, names(work@)),
            decreases self@.widgets.dom().len(),
        {
            let ghost full = names(work@);
            let next = work.pop();
            match next {
                Some(c) => {
                    assert(full =~= names(work@).push(c@));
                    self.take_out(c.as_str(), &mut work, Ghost(r0), Ghost(a));
                },
                None => {},
            }
        }
        proof {
            assert(names(work@) =~= Seq::<Seq<char>>::empty());
            lemma_purging_end(r0, a, self@);
            assert(r0.placed(a));
            lemma_parent_not_under(r0, a);
            lemma_under_outside(r0, a, root_key());
        }
        self.unlink_child(parent_key.as_str(), removed.child_index);
        proof {
            let target = r0.without_subtree(a);
            assert(self@.children =~= target.children);
        }
        self.recompute_parent_state(parent_key.as_str(), Ghost(r0), Ghost(a));
        proof {
            lemma_remove_wf(r0, a);
        }
        Some(removed)
    }
}

} // verus!
