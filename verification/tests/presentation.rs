use weldwm::cursor::SoftwareCursor;
use weldwm::number::{Real32, Vec2};
use weldwm::presentation::{
    present_client_windows, present_server_windows, revoke_mismatched_presentations,
    NewPresentation, PresentationKind, PresentationSource,
};
use weldwm::surface::{SurfaceId, WindowDecoration};

fn source(
    raw: u64,
    decoration: Option<WindowDecoration>,
    z_index: Option<i32>,
    presented: Option<PresentationKind>,
) -> PresentationSource {
    PresentationSource {
        surface: SurfaceId::new(raw),
        decoration,
        z_index,
        presented,
    }
}

#[test]
fn mismatched_presentations_are_revoked_and_others_stay() {
    let client = Some(WindowDecoration::ClientSide);
    let server = Some(WindowDecoration::ServerSide);
    let mut sources = vec![
        source(1, client, Some(4), Some(PresentationKind::Server)),
        source(2, client, Some(5), Some(PresentationKind::Client)),
        source(3, server, Some(6), Some(PresentationKind::Client)),
        source(4, server, Some(7), Some(PresentationKind::Foreign)),
        source(5, None, Some(8), Some(PresentationKind::Client)),
        source(6, None, None, None),
    ];
    let revoked = revoke_mismatched_presentations(&mut sources);
    assert_eq!(revoked, [1, 3, 5].map(SurfaceId::new));
    assert_eq!(sources[0].presented, None);
    assert_eq!(sources[1].presented, Some(PresentationKind::Client));
    assert_eq!(sources[2].presented, None);
    assert_eq!(sources[3].presented, Some(PresentationKind::Foreign));
    assert_eq!(sources[4].presented, None);
    assert!(revoke_mismatched_presentations(&mut sources).is_empty());
}

#[test]
fn placed_windows_are_presented_by_their_decoration() {
    let client = Some(WindowDecoration::ClientSide);
    let server = Some(WindowDecoration::ServerSide);
    let mut sources = vec![
        source(1, server, Some(4), None),
        source(2, client, Some(5), None),
        source(3, client, None, None),
        source(4, server, Some(6), Some(PresentationKind::Foreign)),
    ];
    assert_eq!(
        present_client_windows(&mut sources, true),
        [NewPresentation {
            surface: SurfaceId::new(2),
            decoration: WindowDecoration::ClientSide,
            z_index: 5,
        }]
    );
    assert_eq!(
        present_server_windows(&mut sources, true),
        [NewPresentation {
            surface: SurfaceId::new(1),
            decoration: WindowDecoration::ServerSide,
            z_index: 4,
        }]
    );
    assert_eq!(sources[0].presented, Some(PresentationKind::Server));
    assert_eq!(sources[1].presented, Some(PresentationKind::Client));
    assert_eq!(sources[2].presented, None);
    assert!(present_client_windows(&mut sources, true).is_empty());
    assert!(present_server_windows(&mut sources, true).is_empty());
}

#[test]
fn without_a_camera_windows_stay_unclaimed() {
    let before = source(1, Some(WindowDecoration::ClientSide), Some(0), None);
    let mut sources = vec![before];
    assert!(present_client_windows(&mut sources, false).is_empty());
    assert!(present_server_windows(&mut sources, false).is_empty());
    assert_eq!(sources, [before]);
}

fn pair(x: f32, y: f32) -> Vec2 {
    Vec2::new(Real32::new(x.to_bits()), Real32::new(y.to_bits()))
}

#[test]
fn the_cursor_is_redrawn_when_it_comes_moves_or_goes() {
    let mut cursor = SoftwareCursor::new();
    assert!(cursor.follow(None));
    assert!(!cursor.follow(None));
    assert!(cursor.follow(Some(pair(0.0, 0.0))));
    assert!(!cursor.follow(Some(pair(-0.0, 0.0))));
    assert!(cursor.follow(Some(pair(3.0, 0.0))));
    assert!(!cursor.follow(Some(pair(3.0, 0.0))));
    assert!(cursor.follow(None));
    assert!(!cursor.shown);
    assert_eq!(cursor.corner, Some(Vec2::zero()));
    assert!(cursor.follow(Some(pair(f32::NAN, 1.0))));
    assert!(cursor.follow(Some(pair(f32::NAN, 1.0))));
}
