//! Registration of toplevel windows and the life of their surface trees.

use std::collections::HashMap;
use std::hash::Hash;
use vstd::prelude::*;
use vstd::std_specs::hash::obeys_key_model;

use crate::surface::SurfaceId;
use crate::surface_tree::{should_drain_callbacks, CommittedNode, SurfaceTreeState, TreeSnapshot};
#[allow(unused_imports)]
use crate::surface_tree::{distinct, new_pixels, nodes_of, CachedSurfaceBuffer, TreeModel, TreeNode};

verus! {

broadcast use vstd::std_specs::hash::group_hash_axioms;

/// Values by surface, each also found under a key of its own.
#[verifier::reject_recursive_types(K)]
pub struct IndexedStore<K, V> {
    by_id: HashMap<u64, V>,
    id_by_key: HashMap<K, u64>,
}

/// Contents of an [`IndexedStore`].
#[verifier::ext_equal]
#[verifier::reject_recursive_types(K)]
pub struct StoreModel<K, V> {
    pub by_id: Map<u64, V>,
    pub id_by_key: Map<K, u64>,
}

/// Some key leads to `id`.
pub open spec fn leads_to<K>(id_by_key: Map<K, u64>, id: u64) -> bool {
    exists|key: K| #[trigger] id_by_key.contains_key(key) && id_by_key[key] == id
}

impl<K, V> StoreModel<K, V> {
    /// Every key leads to a value, no two keys to the same one, and to every
    /// value leads a key.
    pub open spec fn wf(self) -> bool {
        &&& forall|id: u64| #[trigger] self.by_id.contains_key(id) ==> leads_to(
            self.id_by_key,
            id,
        )
        &&& forall|key: K| #[trigger]
            self.id_by_key.contains_key(key) ==> self.by_id.contains_key(self.id_by_key[key])
        &&& forall|first: K, second: K|
            #![trigger self.id_by_key[first], self.id_by_key[second]]
            self.id_by_key.contains_key(first) && self.id_by_key.contains_key(second) && first
                != second ==> self.id_by_key[first] != self.id_by_key[second]
    }

    pub open spec fn empty() -> Self {
        StoreModel { by_id: Map::empty(), id_by_key: Map::empty() }
    }

    /// Neither the surface nor the key is taken.
    pub open spec fn free(self, id: SurfaceId, key: K) -> bool {
        !self.by_id.contains_key(id.0) && !self.id_by_key.contains_key(key)
    }

    pub open spec fn inserted(self, id: SurfaceId, key: K, value: V) -> Self {
        StoreModel {
            by_id: self.by_id.insert(id.0, value),
            id_by_key: self.id_by_key.insert(key, id.0),
        }
    }

    pub open spec fn removed(self, key: K) -> Self {
        StoreModel {
            by_id: self.by_id.remove(self.id_by_key[key]),
            id_by_key: self.id_by_key.remove(key),
        }
    }

    proof fn inserting_keeps_wf(self, id: SurfaceId, key: K, value: V)
        requires
            self.wf(),
            self.free(id, key),
        ensures
            self.inserted(id, key, value).wf(),
    {
        let after = self.inserted(id, key, value);
        assert forall|other: u64| #[trigger] after.by_id.contains_key(other) implies leads_to(
            after.id_by_key,
            other,
        ) by {
            if other == id.0 {
                assert(after.id_by_key.contains_key(key));
            } else {
                assert(self.by_id.contains_key(other));
                let known = choose|known: K| #[trigger]
                    self.id_by_key.contains_key(known) && self.id_by_key[known] == other;
                assert(after.id_by_key.contains_key(known));
            }
        }
    }

    proof fn removing_keeps_wf(self, key: K)
        requires
            self.wf(),
            self.id_by_key.contains_key(key),
        ensures
            self.removed(key).wf(),
    {
        let after = self.removed(key);
        assert forall|other: u64| #[trigger] after.by_id.contains_key(other) implies leads_to(
            after.id_by_key,
            other,
        ) by {
            assert(self.by_id.contains_key(other));
            let known = choose|known: K| #[trigger]
                self.id_by_key.contains_key(known) && self.id_by_key[known] == other;
            assert(after.id_by_key.contains_key(known));
        }
    }
}

impl<K, V> View for IndexedStore<K, V> {
    type V = StoreModel<K, V>;

    closed spec fn view(&self) -> StoreModel<K, V> {
        StoreModel { by_id: self.by_id@, id_by_key: self.id_by_key@ }
    }
}

impl<K: Clone + Eq + Hash, V> Default for IndexedStore<K, V> {
    fn default() -> (store: Self)
        ensures
            store@ == StoreModel::<K, V>::empty(),
            store@.wf(),
    {
        IndexedStore { by_id: HashMap::new(), id_by_key: HashMap::new() }
    }
}

impl<K: Clone + Eq + Hash, V> IndexedStore<K, V> {
    /// Enters a value; refused if the surface or the key is taken.
    pub fn insert(&mut self, id: SurfaceId, key: K, value: V) -> (inserted: bool)
        requires
            obeys_key_model::<K>(),
            old(self)@.wf(),
        ensures
            final(self)@.wf(),
            inserted == old(self)@.free(id, key),
            final(self)@ == (if inserted {
                old(self)@.inserted(id, key, value)
            } else {
                old(self)@
            }),
    {
        if self.by_id.contains_key(&id.0) || self.id_by_key.contains_key(&key) {
            return false;
        }
        let ghost before = self@;
        proof {
            before.inserting_keeps_wf(id, key, value);
        }
        self.id_by_key.insert(key, id.0);
        self.by_id.insert(id.0, value);
        assert(self@ =~= before.inserted(id, key, value));
        true
    }

    pub fn get(&self, id: SurfaceId) -> (value: Option<&V>)
        ensures
            match value {
                Some(value) => self@.by_id.contains_key(id.0) && *value == self@.by_id[id.0],
                None => !self@.by_id.contains_key(id.0),
            },
    {
        self.by_id.get(&id.0)
    }

    pub fn id_for_key(&self, key: &K) -> (id: Option<SurfaceId>)
        requires
            obeys_key_model::<K>(),
        ensures
            id == (if self@.id_by_key.contains_key(*key) {
                Some(SurfaceId(self@.id_by_key[*key]))
            } else {
                None
            }),
    {
        match self.id_by_key.get(key) {
            Some(id) => Some(SurfaceId(*id)),
            None => None,
        }
    }

    /// Takes out the value under a key.
    pub fn remove_by_key(&mut self, key: &K) -> (removed: Option<(SurfaceId, V)>)
        requires
            obeys_key_model::<K>(),
            old(self)@.wf(),
        ensures
            final(self)@.wf(),
            match removed {
                Some((id, value)) => {
                    &&& old(self)@.id_by_key.contains_key(*key)
                    &&& id.0 == old(self)@.id_by_key[*key]
                    &&& value == old(self)@.by_id[id.0]
                    &&& final(self)@ == old(self)@.removed(*key)
                },
                None => !old(self)@.id_by_key.contains_key(*key) && final(self)@ == old(self)@,
            },
    {
        let ghost before = self@;
        match self.id_by_key.remove(key) {
            Some(id) => {
                match self.by_id.remove(&id) {
                    Some(value) => {
                        proof {
                            before.removing_keeps_wf(*key);
                        }
                        assert(self@ =~= before.removed(*key));
                        Some((SurfaceId(id), value))
                    },
                    None => None,
                }
            },
            None => {
                assert(self@ =~= before);
                None
            },
        }
    }
}

/// Hands out the next surface id. Ids are never handed out twice: once they
/// have run out there are no more.
pub fn allocate_surface_id(next: &mut Option<u64>) -> (id: Option<SurfaceId>)
    ensures
        match *old(next) {
            Some(raw) => {
                &&& id == Some(SurfaceId(raw))
                &&& *final(next) == (if raw == u64::MAX {
                    None
                } else {
                    Some((raw + 1) as u64)
                })
            },
            None => id is None && *final(next) is None,
        },
{
    match *next {
        Some(raw) => {
            *next = raw.checked_add(1);
            Some(SurfaceId(raw))
        },
        None => None,
    }
}

/// What a decoration request of a client asks for.
#[derive(Clone, Copy, Debug, PartialEq, Eq, Structural)]
pub enum DecorationRequest {
    Created,
    ModeRequested,
    ModeUnset,
}

/// How a decoration request is answered.
#[derive(Clone, Copy, Debug, PartialEq, Eq, Structural)]
pub enum DecorationReply {
    /// The first configuration will say it.
    Silent,
    /// Send what changed, if anything did.
    Pending,
    /// Answer in any case.
    Configure,
}

/// Windows are always decorated by the server. A client that asks for a mode is
/// answered even where nothing changes for it.
pub fn decoration_reply(request: DecorationRequest, initial_configure_sent: bool) -> (reply:
    DecorationReply)
    ensures
        reply == (if !initial_configure_sent {
            DecorationReply::Silent
        } else if request is Created {
            DecorationReply::Pending
        } else {
            DecorationReply::Configure
        }),
{
    if !initial_configure_sent {
        return DecorationReply::Silent;
    }
    match request {
        DecorationRequest::Created => DecorationReply::Pending,
        DecorationRequest::ModeRequested | DecorationRequest::ModeUnset => DecorationReply::Configure,
    }
}

/// What comes of a new toplevel.
#[derive(Clone, Copy, Debug, PartialEq, Eq, Structural)]
pub enum Registration {
    /// It is registered, and its creation is to be announced.
    Registered(SurfaceId),
    /// There are no ids left: it is to be closed.
    Exhausted,
    /// Its surface is registered already: it is to be closed.
    Duplicate(SurfaceId),
}

/// What a commit asks for.
#[derive(Clone, Copy, Debug, PartialEq, Eq, Structural)]
pub enum CommitStep {
    /// It concerns no window here.
    Ignore,
    /// The window is to be configured first.
    Configure(SurfaceId),
    /// The window's tree is to be taken in.
    Update(SurfaceId),
}

/// A tree that changed.
pub struct TreeChange {
    pub snapshot: TreeSnapshot,
    /// Nothing is shown of the window, so that it cannot keep the focus.
    pub clear_focus: bool,
}

/// The toplevel windows. Root surfaces are named by the integers that their
/// protocol objects go by.
pub struct Toplevels {
    store: IndexedStore<u64, SurfaceTreeState>,
    next_surface_id: Option<u64>,
    focused: Option<SurfaceId>,
    presentation_requested: bool,
}

/// What [`Toplevels`] hold.
#[verifier::ext_equal]
pub struct ToplevelsModel {
    pub trees: Map<u64, TreeModel>,
    pub id_by_root: Map<u64, u64>,
    pub next_surface_id: Option<u64>,
    pub focused: Option<SurfaceId>,
    pub presentation_requested: bool,
}

impl View for Toplevels {
    type V = ToplevelsModel;

    closed spec fn view(&self) -> ToplevelsModel {
        ToplevelsModel {
            trees: self.store@.by_id.map_values(|tree: SurfaceTreeState| tree@),
            id_by_root: self.store@.id_by_key,
            next_surface_id: self.next_surface_id,
            focused: self.focused,
            presentation_requested: self.presentation_requested,
        }
    }
}

impl ToplevelsModel {
    /// Every root leads to a tree of its own and every tree has its root, and
    /// ids to come are new.
    pub open spec fn wf(self) -> bool {
        &&& forall|id: u64| #[trigger] self.trees.contains_key(id) ==> leads_to(
            self.id_by_root,
            id,
        )
        &&& forall|root: u64| #[trigger]
            self.id_by_root.contains_key(root) ==> self.trees.contains_key(self.id_by_root[root])
        &&& forall|first: u64, second: u64|
            #![trigger self.id_by_root[first], self.id_by_root[second]]
            self.id_by_root.contains_key(first) && self.id_by_root.contains_key(second) && first
                != second ==> self.id_by_root[first] != self.id_by_root[second]
        &&& forall|id: u64| #[trigger] self.trees.contains_key(id) ==> self.trees[id].wf()
        &&& forall|id: u64| #[trigger]
            self.trees.contains_key(id) && self.next_surface_id is Some ==> id < self.next_surface_id->0
    }

    /// The window of a root surface.
    pub open spec fn window(self, root: u64) -> Option<SurfaceId> {
        if self.id_by_root.contains_key(root) {
            Some(SurfaceId(self.id_by_root[root]))
        } else {
            None
        }
    }

    /// The ids after one was handed out.
    pub open spec fn id_taken(self) -> Option<u64> {
        match self.next_surface_id {
            Some(raw) => if raw == u64::MAX {
                None
            } else {
                Some((raw + 1) as u64)
            },
            None => None,
        }
    }
}

impl Toplevels {
    pub fn new() -> (toplevels: Self)
        ensures
            toplevels@.trees == Map::<u64, TreeModel>::empty(),
            toplevels@.id_by_root == Map::<u64, u64>::empty(),
            toplevels@.next_surface_id == Some(1u64),
            toplevels@.focused is None,
            !toplevels@.presentation_requested,
            toplevels@.wf(),
    {
        let toplevels = Toplevels {
            store: IndexedStore::default(),
            next_surface_id: Some(1),
            focused: None,
            presentation_requested: false,
        };
        assert(toplevels@.trees =~= Map::<u64, TreeModel>::empty());
        toplevels
    }

    /// Registers the toplevel whose root surface is `root`. A root that is
    /// registered already uses up an id all the same.
    pub fn new_toplevel(&mut self, root: u64) -> (registration: Registration)
        requires
            old(self)@.wf(),
        ensures
            final(self)@.wf(),
            match old(self)@.next_surface_id {
                None => registration is Exhausted && final(self)@ == old(self)@,
                Some(raw) => if old(self)@.id_by_root.contains_key(root) {
                    &&& registration == Registration::Duplicate(SurfaceId(raw))
                    &&& final(self)@ == (ToplevelsModel {
                        next_surface_id: old(self)@.id_taken(),
                        ..old(self)@
                    })
                } else {
                    &&& registration == Registration::Registered(SurfaceId(raw))
                    &&& final(self)@.trees.contains_key(raw)
                    &&& final(self)@.trees[raw].nodes.len() == 0
                    &&& final(self)@.trees[raw].root_geometry is None
                    &&& final(self)@.trees[raw].buffers == Map::<u64, CachedSurfaceBuffer>::empty()
                    &&& final(self)@.trees[raw].next_layer == Some(1u64)
                    &&& final(self)@ == (ToplevelsModel {
                        trees: old(self)@.trees.insert(raw, final(self)@.trees[raw]),
                        id_by_root: old(self)@.id_by_root.insert(root, raw),
                        next_surface_id: old(self)@.id_taken(),
                        ..old(self)@
                    })
                },
            },
    {
        let ghost before = self@;
        proof {
            self.bridge();
        }
        let id = match allocate_surface_id(&mut self.next_surface_id) {
            Some(id) => id,
            None => {
                return Registration::Exhausted;
            },
        };
        let tree = SurfaceTreeState::new();
        let ghost fresh = tree@;
        if !self.store.insert(id, root, tree) {
            assert(self@.trees =~= before.trees);
            return Registration::Duplicate(id);
        }
        proof {
            assert(self@.trees =~= before.trees.insert(id.0, fresh));
            assert(self@.id_by_root =~= before.id_by_root.insert(root, id.0));
        }
        Registration::Registered(id)
    }

    proof fn bridge(&self)
        requires
            self@.wf(),
        ensures
            self.store@.wf(),
            forall|id: u64| #[trigger] self.store@.by_id.contains_key(id) <==> self@.trees.contains_key(id),
            forall|id: u64| #[trigger]
                self.store@.by_id.contains_key(id) ==> self.store@.by_id[id]@ == self@.trees[id],
    {
        assert forall|id: u64| #[trigger] self.store@.by_id.contains_key(id) implies leads_to(
            self.store@.id_by_key,
            id,
        ) by {
            assert(self@.trees.contains_key(id));
        }
        assert forall|key: u64| #[trigger] self.store@.id_by_key.contains_key(key) implies self.store@.by_id.contains_key(
            self.store@.id_by_key[key],
        ) by {
            assert(self@.id_by_root.contains_key(key));
            assert(self@.trees.contains_key(self@.id_by_root[key]));
        }
        assert forall|first: u64, second: u64|
            #![trigger self.store@.id_by_key[first], self.store@.id_by_key[second]]
            self.store@.id_by_key.contains_key(first) && self.store@.id_by_key.contains_key(second)
                && first != second implies self.store@.id_by_key[first]
            != self.store@.id_by_key[second] by {
            assert(self@.id_by_root[first] != self@.id_by_root[second]);
        }
    }

    /// The window whose root surface is `root`.
    pub fn id_for_surface(&self, root: u64) -> (id: Option<SurfaceId>)
        ensures
            id == self@.window(root),
    {
        self.store.id_for_key(&root)
    }

    /// Whether a window is registered.
    pub fn is_registered(&self, id: SurfaceId) -> (registered: bool)
        ensures
            registered == self@.trees.contains_key(id.0),
    {
        self.store.get(id).is_some()
    }

    /// What a commit below `root` asks for. Commits of synchronised children
    /// wait for their parent's.
    pub fn commit(&mut self, root: u64, synchronised: bool, initial_configure_sent: bool) -> (step:
        CommitStep)
        requires
            old(self)@.wf(),
        ensures
            final(self)@.wf(),
            step == (match old(self)@.window(root) {
                Some(id) => if synchronised {
                    CommitStep::Ignore
                } else if initial_configure_sent {
                    CommitStep::Update(id)
                } else {
                    CommitStep::Configure(id)
                },
                None => CommitStep::Ignore,
            }),
            final(self)@ == (ToplevelsModel {
                presentation_requested: old(self)@.presentation_requested || step is Update,
                ..old(self)@
            }),
    {
        if synchronised {
            return CommitStep::Ignore;
        }
        match self.id_for_surface(root) {
            Some(id) => {
                if !initial_configure_sent {
                    return CommitStep::Configure(id);
                }
                self.presentation_requested = true;
                CommitStep::Update(id)
            },
            None => CommitStep::Ignore,
        }
    }

    /// Takes in the committed tree of a window.
    pub fn update_surface_tree(
        &mut self,
        id: SurfaceId,
        root: u64,
        committed: Vec<CommittedNode>,
    ) -> (change: Option<TreeChange>)
        requires
            old(self)@.wf(),
            distinct(nodes_of(committed@)),
        ensures
            final(self)@.wf(),
            !old(self)@.trees.contains_key(id.0) ==> change is None && final(self)@ == old(self)@,
            old(self)@.trees.contains_key(id.0) ==> {
                let before = old(self)@.trees[id.0];
                let after = before.updated(committed@);
                &&& change is Some
                &&& after.shows(
                    change->0.snapshot,
                    root,
                    new_pixels(before.relisted(nodes_of(committed@)), committed@),
                )
                &&& change->0.clear_focus == (after.root_placement(root) is None)
                &&& final(self)@ == (ToplevelsModel {
                    trees: old(self)@.trees.insert(id.0, after),
                    ..old(self)@
                })
            },
    {
        let ghost before = self@;
        proof {
            self.bridge();
        }
        match self.store.by_id.remove(&id.0) {
            Some(held) => {
                let mut tree: SurfaceTreeState = held;
                assert(tree@ == before.trees[id.0]);
                let snapshot = tree.update(root, committed);
                self.store.by_id.insert(id.0, tree);
                assert(self@.trees =~= before.trees.insert(id.0, tree@));
                let clear_focus = snapshot.root.is_none();
                Some(TreeChange { snapshot, clear_focus })
            },
            None => {
                assert(self@.trees =~= before.trees);
                None
            },
        }
    }

    /// Takes a surface that was destroyed out of the tree below `root`.
    pub fn surface_destroyed(&mut self, root: u64, surface: u64) -> (change: Option<
        (SurfaceId, TreeSnapshot),
    >)
        requires
            old(self)@.wf(),
        ensures
            final(self)@.wf(),
            old(self)@.window(root) is None ==> change is None && final(self)@ == old(self)@,
            old(self)@.window(root) is Some ==> {
                let id = old(self)@.window(root)->0;
                let after = old(self)@.trees[id.0].pruned(surface);
                &&& change is Some
                &&& (change->0).0 == id
                &&& after.shows((change->0).1, root, Map::<u64, Seq<u8>>::empty())
                &&& final(self)@ == (ToplevelsModel {
                    trees: old(self)@.trees.insert(id.0, after),
                    presentation_requested: true,
                    ..old(self)@
                })
            },
    {
        let ghost before = self@;
        proof {
            self.bridge();
        }
        let id = match self.id_for_surface(root) {
            Some(id) => id,
            None => {
                return None;
            },
        };
        assert(before.trees.contains_key(id.0));
        match self.store.by_id.remove(&id.0) {
            Some(held) => {
                let mut tree: SurfaceTreeState = held;
                assert(tree@ == before.trees[id.0]);
                let snapshot = tree.remove_surface(root, surface);
                self.store.by_id.insert(id.0, tree);
                self.presentation_requested = true;
                assert(self@.trees =~= before.trees.insert(id.0, tree@));
                Some((id, snapshot))
            },
            None => None,
        }
    }

    /// Forgets the toplevel whose root surface was destroyed; the window that
    /// it was.
    pub fn toplevel_destroyed(&mut self, root: u64) -> (id: Option<SurfaceId>)
        requires
            old(self)@.wf(),
        ensures
            final(self)@.wf(),
            id == old(self)@.window(root),
            id is None ==> final(self)@ == old(self)@,
            id is Some ==> final(self)@ == (ToplevelsModel {
                trees: old(self)@.trees.remove((id->0).0),
                id_by_root: old(self)@.id_by_root.remove(root),
                focused: if old(self)@.focused == id {
                    None
                } else {
                    old(self)@.focused
                },
                ..old(self)@
            }),
    {
        let ghost before = self@;
        proof {
            self.bridge();
        }
        match self.store.remove_by_key(&root) {
            Some((id, _)) => {
                if let Some(focused) = self.focused {
                    if focused.0 == id.0 {
                        self.focused = None;
                    }
                }
                proof {
                    assert(self@.trees =~= before.trees.remove(id.0));
                    assert(self@.id_by_root =~= before.id_by_root.remove(root));
                }
                Some(id)
            },
            None => None,
        }
    }

    /// Whether a client waits to be told of the next frame.
    pub fn presentation_requested(&self) -> (requested: bool)
        ensures
            requested == self@.presentation_requested,
    {
        self.presentation_requested
    }

    /// Takes note that a frame was presented.
    pub fn frame_presented(&mut self)
        ensures
            final(self)@ == (ToplevelsModel { presentation_requested: false, ..old(self)@ }),
            old(self)@.wf() ==> final(self)@.wf(),
    {
        self.presentation_requested = false;
        assert(self@.trees =~= old(self)@.trees);
    }

    /// Whether the frame callbacks of a window that is alive are answered.
    pub fn answers_callbacks(&self, id: SurfaceId, root: u64) -> (answers: bool)
        ensures
            answers == (self@.trees.contains_key(id.0) && self@.trees[id.0].mapped(root)),
    {
        match self.store.get(id) {
            Some(tree) => {
                assert(tree@ == self@.trees[id.0]);
                should_drain_callbacks(tree.client_mapped(root), tree.displayable(root))
            },
            None => false,
        }
    }

    /// The window that has the focus.
    pub fn focused(&self) -> (focused: Option<SurfaceId>)
        ensures
            focused == self@.focused,
    {
        self.focused
    }

    /// Gives the focus to another window, or to none.
    pub fn set_focused(&mut self, focused: Option<SurfaceId>)
        ensures
            final(self)@ == (ToplevelsModel { focused, ..old(self)@ }),
            old(self)@.wf() ==> final(self)@.wf(),
    {
        self.focused = focused;
        assert(self@.trees =~= old(self)@.trees);
    }
}

/// The id that a new window gets is one that no registered window has, and
/// forgetting windows does not bring ids back.
pub proof fn window_ids_are_not_reused(state: ToplevelsModel, root: u64)
    requires
        state.wf(),
        state.next_surface_id is Some,
    ensures
        !state.trees.contains_key(state.next_surface_id->0),
        state.window(root) != Some(SurfaceId(state.next_surface_id->0)),
        state.id_taken() is Some ==> state.id_taken()->0 > state.next_surface_id->0,
{
    if state.id_by_root.contains_key(root) {
        assert(state.trees.contains_key(state.id_by_root[root]));
    }
}

/// A value that was put into a store is found by its surface and by its key, and
/// changes nothing about the others.
pub proof fn stored_values_are_found<K, V>(
    store: StoreModel<K, V>,
    id: SurfaceId,
    key: K,
    value: V,
    other: u64,
    other_key: K,
)
    ensures
        ({
            let after = store.inserted(id, key, value);
            &&& after.by_id.contains_key(id.0) && after.by_id[id.0] == value
            &&& after.id_by_key.contains_key(key) && after.id_by_key[key] == id.0
            &&& other != id.0 ==> after.by_id[other] == store.by_id[other] && (
            after.by_id.contains_key(other) <==> store.by_id.contains_key(other))
            &&& other_key != key ==> after.id_by_key[other_key] == store.id_by_key[other_key] && (
            after.id_by_key.contains_key(other_key) <==> store.id_by_key.contains_key(other_key))
        }),
        StoreModel::<K, V>::empty().by_id.is_empty(),
        StoreModel::<K, V>::empty().id_by_key.is_empty(),
        store.free(id, key) <==> !store.by_id.contains_key(id.0) && !store.id_by_key.contains_key(
            key,
        ),
{
    assert(StoreModel::<K, V>::empty().by_id =~= Map::empty());
    assert(StoreModel::<K, V>::empty().id_by_key =~= Map::empty());
}

/// What was taken out of a store by its key is found neither by the key nor by
/// the surface; a store without it is as if it had never been put there.
pub proof fn removed_values_are_gone<K, V>(
    store: StoreModel<K, V>,
    id: SurfaceId,
    key: K,
    value: V,
)
    requires
        store.wf(),
    ensures
        store.id_by_key.contains_key(key) ==> !store.removed(key).id_by_key.contains_key(key)
            && !store.removed(key).by_id.contains_key(store.id_by_key[key]),
        store.free(id, key) ==> store.inserted(id, key, value).removed(key) == store,
{
    if store.free(id, key) {
        assert(store.inserted(id, key, value).removed(key).by_id =~= store.by_id);
        assert(store.inserted(id, key, value).removed(key).id_by_key =~= store.id_by_key);
    }
}

/// A store in order finds a value by every key that it has, each under a surface
/// of its own, and has a key for every value.
pub proof fn stores_find_every_value<K, V>(store: StoreModel<K, V>, first: K, second: K, id: u64)
    requires
        store.wf(),
    ensures
        store.id_by_key.contains_key(first) ==> store.by_id.contains_key(store.id_by_key[first]),
        store.id_by_key.contains_key(first) && store.id_by_key.contains_key(second)
            && store.id_by_key[first] == store.id_by_key[second] ==> first == second,
        store.by_id.contains_key(id) ==> exists|key: K| #[trigger]
            store.id_by_key.contains_key(key) && store.id_by_key[key] == id,
{
    if store.by_id.contains_key(id) {
        assert(leads_to(store.id_by_key, id));
    }
}

/// A registered root surface has its own window, and any other has none. Ids are
/// handed out one by one until they have run out.
pub proof fn roots_have_their_own_window(state: ToplevelsModel, first: u64, second: u64)
    requires
        state.wf(),
    ensures
        state.window(first) is Some <==> state.id_by_root.contains_key(first),
        state.window(first) matches Some(id) ==> state.trees.contains_key(id.0),
        state.window(first) is Some && state.window(first) == state.window(second) ==> first
            == second,
        state.next_surface_id is Some && state.next_surface_id->0 < u64::MAX ==> state.id_taken()
            is Some && state.id_taken()->0 == state.next_surface_id->0 + 1,
        state.next_surface_id is None || state.next_surface_id == Some(u64::MAX)
            ==> state.id_taken() is None,
{
    if state.id_by_root.contains_key(first) && state.id_by_root.contains_key(second) && first
        != second {
        assert(state.id_by_root[first] != state.id_by_root[second]);
    }
}

/// A client is told of its decoration only after the first configuration; one
/// that asks for a mode is always answered then, and a new decoration object only
/// where something changed.
pub proof fn decoration_requests_are_answered(
    request: DecorationRequest,
    configured: bool,
    reply: DecorationReply,
)
    requires
        call_ensures(decoration_reply, (request, configured), reply),
    ensures
        reply is Silent <==> !configured,
        reply is Pending <==> configured && request is Created,
        reply is Configure <==> configured && (request is ModeRequested || request is ModeUnset),
{
}

/// A commit below a registered root takes its window's tree in once the window
/// was configured, and has it configured before that. Commits of synchronised
/// children and of unknown roots are left alone.
pub proof fn commits_concern_their_window(
    windows: &mut Toplevels,
    root: u64,
    synchronised: bool,
    configured: bool,
    step: CommitStep,
)
    requires
        old(windows)@.wf(),
        call_ensures(Toplevels::commit, (windows, root, synchronised, configured), step),
    ensures
        step is Ignore <==> synchronised || !old(windows)@.id_by_root.contains_key(root),
        step matches CommitStep::Update(id) ==> configured && id.0 == old(windows)@.id_by_root[root],
        step matches CommitStep::Configure(id) ==> !configured && id.0 == old(
            windows,
        )@.id_by_root[root],
        final(windows)@.presentation_requested <==> old(windows)@.presentation_requested || step
            is Update,
        final(windows)@.trees == old(windows)@.trees,
        final(windows)@.focused == old(windows)@.focused,
{
}

/// A new window has an id that no window had, and its root leads to it; a root
/// that is registered already keeps its window. Once the ids have run out no
/// window is registered.
pub proof fn new_windows_are_registered(
    windows: &mut Toplevels,
    root: u64,
    registration: Registration,
)
    requires
        old(windows)@.wf(),
        call_ensures(Toplevels::new_toplevel, (windows, root), registration),
    ensures
        registration is Exhausted <==> old(windows)@.next_surface_id is None,
        registration matches Registration::Registered(id) ==> {
            &&& !old(windows)@.trees.contains_key(id.0)
            &&& final(windows)@.window(root) == Some(id)
            &&& final(windows)@.trees.contains_key(id.0)
            &&& final(windows)@.trees[id.0].nodes.len() == 0
        },
        registration matches Registration::Duplicate(id) ==> {
            &&& final(windows)@.window(root) == old(windows)@.window(root)
            &&& old(windows)@.window(root) is Some && old(windows)@.window(root) != Some(id)
        },
        final(windows)@.focused == old(windows)@.focused,
{
    if let Some(raw) = old(windows)@.next_surface_id {
        window_ids_are_not_reused(old(windows)@, root);
    }
}

/// A window whose root is gone is forgotten, with its tree, and cannot keep the
/// focus; every other window keeps its tree and the focus.
pub proof fn destroyed_windows_are_forgotten(
    windows: &mut Toplevels,
    root: u64,
    other: u64,
    id: Option<SurfaceId>,
)
    requires
        old(windows)@.wf(),
        other != root,
        call_ensures(Toplevels::toplevel_destroyed, (windows, root), id),
    ensures
        id == old(windows)@.window(root),
        final(windows)@.window(root) is None,
        id matches Some(gone) ==> !final(windows)@.trees.contains_key(gone.0) && final(windows)@.focused != Some(gone),
        id is Some && old(windows)@.focused != id ==> final(windows)@.focused == old(
            windows,
        )@.focused,
        final(windows)@.window(other) == old(windows)@.window(other),
        final(windows)@.next_surface_id == old(windows)@.next_surface_id,
{
}

/// Ids are handed out in ascending order, each once, until there is none left.
pub proof fn ids_ascend(
    next: &mut Option<u64>,
    first: Option<SurfaceId>,
    later: &mut Option<u64>,
    second: Option<SurfaceId>,
)
    requires
        call_ensures(allocate_surface_id, (next,), first),
        *old(later) == *final(next),
        call_ensures(allocate_surface_id, (later,), second),
    ensures
        first is Some <==> *old(next) is Some,
        first matches Some(id) ==> Some(id.0) == *old(next),
        first is Some && second is Some ==> (second->0).0 == (first->0).0 + 1,
        first is None ==> second is None,
        first is Some && second is None ==> (first->0).0 == u64::MAX,
{
}

} // verus!
