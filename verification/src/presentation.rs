//! Presentations of application windows: which are revoked and which are made.

use vstd::prelude::*;

use crate::surface::{SurfaceId, WindowDecoration};

verus! {

/// Who built the presentation of a window.
#[derive(Clone, Copy, Debug, PartialEq, Eq, Structural)]
pub enum PresentationKind {
    Client,
    Server,
    /// Another plugin, whose presentation stays.
    Foreign,
}

/// An application window that can be presented.
#[derive(Clone, Copy, Debug, PartialEq, Eq, Structural)]
pub struct PresentationSource {
    pub surface: SurfaceId,
    /// Who draws the frame; none where nobody was asked to.
    pub decoration: Option<WindowDecoration>,
    /// The stacking index of a placed window.
    pub z_index: Option<i32>,
    /// The presentation that the window has.
    pub presented: Option<PresentationKind>,
}

/// A presentation to make.
#[derive(Clone, Copy, Debug, PartialEq, Eq, Structural)]
pub struct NewPresentation {
    pub surface: SurfaceId,
    pub decoration: WindowDecoration,
    pub z_index: i32,
}

/// The presentation that goes with a decoration.
pub open spec fn kind_for(decoration: WindowDecoration) -> PresentationKind {
    match decoration {
        WindowDecoration::ClientSide => PresentationKind::Client,
        WindowDecoration::ServerSide => PresentationKind::Server,
    }
}

impl PresentationSource {
    /// The presentation no longer goes with the window's decoration.
    pub open spec fn mismatched(self) -> bool {
        match self.presented {
            None => false,
            Some(PresentationKind::Foreign) => false,
            Some(kind) => match self.decoration {
                None => true,
                Some(decoration) => kind != kind_for(decoration),
            },
        }
    }

    /// The window after mismatched presentations are revoked.
    pub open spec fn settled(self) -> PresentationSource {
        if self.mismatched() {
            PresentationSource { presented: None, ..self }
        } else {
            self
        }
    }

    /// The window has the given decoration and a place, and is not presented.
    pub open spec fn awaits(self, decoration: WindowDecoration) -> bool {
        self.decoration == Some(decoration) && self.z_index is Some && self.presented is None
    }

    /// The window after those with the given decoration are presented.
    pub open spec fn shown(self, decoration: WindowDecoration) -> PresentationSource {
        if self.awaits(decoration) {
            PresentationSource { presented: Some(kind_for(decoration)), ..self }
        } else {
            self
        }
    }

    fn is_mismatched(&self) -> (mismatched: bool)
        ensures
            mismatched == self.mismatched(),
    {
        match (self.presented, self.decoration) {
            (Some(PresentationKind::Client), Some(WindowDecoration::ClientSide)) => false,
            (Some(PresentationKind::Server), Some(WindowDecoration::ServerSide)) => false,
            (Some(PresentationKind::Client), _) => true,
            (Some(PresentationKind::Server), _) => true,
            _ => false,
        }
    }
}

/// The surfaces whose presentations are revoked, in order.
pub open spec fn revoked_surfaces(sources: Seq<PresentationSource>) -> Seq<SurfaceId>
    decreases sources.len(),
{
    if sources.len() == 0 {
        Seq::empty()
    } else {
        let earlier = revoked_surfaces(sources.drop_last());
        if sources.last().mismatched() {
            earlier.push(sources.last().surface)
        } else {
            earlier
        }
    }
}

/// The presentations to make for one decoration, in order.
pub open spec fn new_presentations(
    sources: Seq<PresentationSource>,
    decoration: WindowDecoration,
) -> Seq<NewPresentation>
    decreases sources.len(),
{
    if sources.len() == 0 {
        Seq::empty()
    } else {
        let earlier = new_presentations(sources.drop_last(), decoration);
        let source = sources.last();
        if source.awaits(decoration) {
            earlier.push(
                NewPresentation { surface: source.surface, decoration, z_index: source.z_index->0 },
            )
        } else {
            earlier
        }
    }
}

/// The windows after mismatched presentations are revoked.
pub open spec fn settled_sources(sources: Seq<PresentationSource>) -> Seq<PresentationSource> {
    Seq::new(sources.len(), |i: int| sources[i].settled())
}

/// The windows after those with the given decoration are presented.
pub open spec fn shown_sources(
    sources: Seq<PresentationSource>,
    decoration: WindowDecoration,
) -> Seq<PresentationSource> {
    Seq::new(sources.len(), |i: int| sources[i].shown(decoration))
}

/// Takes down the presentations that no longer go with their window's
/// decoration, and says whose they were. Those of other plugins stay.
pub fn revoke_mismatched_presentations(sources: &mut Vec<PresentationSource>) -> (revoked: Vec<
    SurfaceId,
>)
    ensures
        final(sources)@ == settled_sources(old(sources)@),
        revoked@ == revoked_surfaces(old(sources)@),
{
    let ghost before = sources@;
    let mut revoked: Vec<SurfaceId> = Vec::new();
    let mut i: usize = 0;
    while i < sources.len()
        invariant
            i <= sources@.len(),
            sources@.len() == before.len(),
            forall|k: int| 0 <= k < i ==> #[trigger] sources@[k] == before[k].settled(),
            forall|k: int| i <= k < before.len() ==> #[trigger] sources@[k] == before[k],
            revoked@ == revoked_surfaces(before.take(i as int)),
        decreases sources@.len() - i,
    {
        let mut source = sources[i];
        assert(before.take(i + 1).drop_last() =~= before.take(i as int));
        if source.is_mismatched() {
            revoked.push(source.surface);
            source.presented = None;
            sources.set(i, source);
        }
        i = i + 1;
    }
    assert(before.take(i as int) =~= before);
    assert(sources@ =~= settled_sources(before));
    revoked
}

fn present_windows(
    sources: &mut Vec<PresentationSource>,
    decoration: WindowDecoration,
    kind: PresentationKind,
    camera: bool,
) -> (made: Vec<NewPresentation>)
    requires
        kind == kind_for(decoration),
    ensures
        !camera ==> final(sources)@ == old(sources)@ && made@ == Seq::<NewPresentation>::empty(),
        camera ==> final(sources)@ == shown_sources(old(sources)@, decoration) && made@
            == new_presentations(old(sources)@, decoration),
{
    let mut made: Vec<NewPresentation> = Vec::new();
    if !camera {
        return made;
    }
    let ghost before = sources@;
    let mut i: usize = 0;
    while i < sources.len()
        invariant
            i <= sources@.len(),
            kind == kind_for(decoration),
            sources@.len() == before.len(),
            forall|k: int| 0 <= k < i ==> #[trigger] sources@[k] == before[k].shown(decoration),
            forall|k: int| i <= k < before.len() ==> #[trigger] sources@[k] == before[k],
            made@ == new_presentations(before.take(i as int), decoration),
        decreases sources@.len() - i,
    {
        let mut source = sources[i];
        assert(before.take(i + 1).drop_last() =~= before.take(i as int));
        if let (Some(owner), Some(z_index), None) = (
            source.decoration,
            source.z_index,
            source.presented,
        ) {
            if owner == decoration {
                made.push(NewPresentation { surface: source.surface, decoration, z_index });
                source.presented = Some(kind);
                sources.set(i, source);
            }
        }
        i = i + 1;
    }
    assert(before.take(i as int) =~= before);
    assert(sources@ =~= shown_sources(before, decoration));
    made
}

/// Presents the placed windows that draw their own frame and have no
/// presentation. Without a camera none is made.
pub fn present_client_windows(sources: &mut Vec<PresentationSource>, camera: bool) -> (made: Vec<
    NewPresentation,
>)
    ensures
        !camera ==> final(sources)@ == old(sources)@ && made@ == Seq::<NewPresentation>::empty(),
        camera ==> final(sources)@ == shown_sources(old(sources)@, WindowDecoration::ClientSide)
            && made@ == new_presentations(old(sources)@, WindowDecoration::ClientSide),
{
    present_windows(sources, WindowDecoration::ClientSide, PresentationKind::Client, camera)
}

/// Presents the placed windows whose frame is drawn for them and that have no
/// presentation. Without a camera none is made.
pub fn present_server_windows(sources: &mut Vec<PresentationSource>, camera: bool) -> (made: Vec<
    NewPresentation,
>)
    ensures
        !camera ==> final(sources)@ == old(sources)@ && made@ == Seq::<NewPresentation>::empty(),
        camera ==> final(sources)@ == shown_sources(old(sources)@, WindowDecoration::ServerSide)
            && made@ == new_presentations(old(sources)@, WindowDecoration::ServerSide),
{
    present_windows(sources, WindowDecoration::ServerSide, PresentationKind::Server, camera)
}

/// The windows after one round: revocation, then presentation of both kinds.
pub open spec fn presented_round(sources: Seq<PresentationSource>) -> Seq<PresentationSource> {
    shown_sources(
        shown_sources(settled_sources(sources), WindowDecoration::ClientSide),
        WindowDecoration::ServerSide,
    )
}

/// After a round every placed window with a decoration has the presentation
/// that goes with it, or one of another plugin, and the next round changes
/// nothing.
pub proof fn presentations_follow_the_decoration(sources: Seq<PresentationSource>)
    ensures
        presented_round(sources).len() == sources.len(),
        forall|i: int|
            0 <= i < sources.len() ==> {
                let after = #[trigger] presented_round(sources)[i];
                &&& !after.mismatched()
                &&& sources[i].decoration is Some && sources[i].z_index is Some
                    ==> after.presented == Some(PresentationKind::Foreign) || after.presented
                    == Some(kind_for(sources[i].decoration->0))
            },
        presented_round(presented_round(sources)) == presented_round(sources),
{
    assert(presented_round(presented_round(sources)) =~= presented_round(sources));
}

/// A presentation of another plugin is neither revoked nor replaced.
pub proof fn foreign_presentations_stay(sources: Seq<PresentationSource>, i: int)
    requires
        0 <= i < sources.len(),
        sources[i].presented == Some(PresentationKind::Foreign),
    ensures
        presented_round(sources)[i] == sources[i],
{
}

/// A presentation is revoked just if the shell made it for another decoration
/// than the window has; the window keeps everything else.
pub proof fn presentations_of_another_kind_are_revoked(source: PresentationSource)
    ensures
        source.presented is None ==> !source.mismatched(),
        source.presented == Some(PresentationKind::Foreign) ==> !source.mismatched(),
        source.presented == Some(PresentationKind::Client) ==> (source.mismatched()
            <==> source.decoration != Some(WindowDecoration::ClientSide)),
        source.presented == Some(PresentationKind::Server) ==> (source.mismatched()
            <==> source.decoration != Some(WindowDecoration::ServerSide)),
        source.mismatched() ==> source.settled().presented is None,
        !source.mismatched() ==> source.settled() == source,
        source.settled().surface == source.surface,
        source.settled().decoration == source.decoration,
        source.settled().z_index == source.z_index,
{
}

/// Each surface that loses its presentation is named, in order: one that comes
/// last is named last, and one that keeps its presentation is not named.
pub proof fn revoked_presentations_are_named(
    sources: Seq<PresentationSource>,
    last: PresentationSource,
)
    ensures
        revoked_surfaces(Seq::empty()) == Seq::<SurfaceId>::empty(),
        last.mismatched() ==> revoked_surfaces(sources.push(last)) == revoked_surfaces(
            sources,
        ).push(last.surface),
        !last.mismatched() ==> revoked_surfaces(sources.push(last)) == revoked_surfaces(sources),
        settled_sources(sources).len() == sources.len(),
        forall|i: int|
            0 <= i < sources.len() ==> #[trigger] settled_sources(sources)[i]
                == sources[i].settled(),
{
    assert(sources.push(last).drop_last() =~= sources);
}

/// A presentation is made for each placed window of the decoration that has none,
/// in order: for its own surface, under its own index. No other window gets one.
pub proof fn placed_windows_are_presented(
    sources: Seq<PresentationSource>,
    last: PresentationSource,
    decoration: WindowDecoration,
)
    ensures
        ({
            let before = new_presentations(sources, decoration);
            let after = new_presentations(sources.push(last), decoration);
            if last.decoration == Some(decoration) && last.z_index is Some && last.presented
                is None {
                &&& after.len() == before.len() + 1
                &&& after.drop_last() == before
                &&& after.last().surface == last.surface
                &&& after.last().decoration == decoration
                &&& Some(after.last().z_index) == last.z_index
            } else {
                after == before
            }
        }),
        new_presentations(Seq::empty(), decoration) == Seq::<NewPresentation>::empty(),
{
    assert(sources.push(last).drop_last() =~= sources);
    if last.awaits(decoration) {
        assert(new_presentations(sources.push(last), decoration).drop_last() =~= new_presentations(
            sources,
            decoration,
        ));
    }
}

/// A window that got a presentation has the one of its decoration; windows that
/// got none stay as they are.
pub proof fn presented_windows_have_their_kind(
    source: PresentationSource,
    decoration: WindowDecoration,
)
    ensures
        ({
            let after = source.shown(decoration);
            &&& source.awaits(decoration) <==> source.decoration == Some(decoration)
                && source.z_index is Some && source.presented is None
            &&& source.awaits(decoration) ==> after.presented == Some(match decoration {
                WindowDecoration::ClientSide => PresentationKind::Client,
                WindowDecoration::ServerSide => PresentationKind::Server,
            })
            &&& !source.awaits(decoration) ==> after == source
            &&& after.surface == source.surface && after.decoration == source.decoration
            &&& after.z_index == source.z_index
        }),
{
}

/// Presenting the windows of a decoration treats each on its own, at its place.
pub proof fn windows_are_presented_one_by_one(
    sources: Seq<PresentationSource>,
    decoration: WindowDecoration,
    i: int,
)
    requires
        0 <= i < sources.len(),
    ensures
        shown_sources(sources, decoration).len() == sources.len(),
        shown_sources(sources, decoration)[i] == sources[i].shown(decoration),
{
}

} // verus!
