use org_viewer_server::assets::{asset_headers, choose_asset, index_document, request_asset, AssetChoice};
use org_viewer_server::bootstrap::{listener_plan, Listener};
use org_viewer_server::logline::log_line;
use org_viewer_server::projects::{project_list, ProjectCandidate};
use org_viewer_server::session::{after_forward, on_hub_event, on_peer_frame, HubEvent, PeerFrame, SessionAction, HUB_CAPACITY};

fn cand(name: &str, is_dir: bool, readme: bool, claude: bool) -> ProjectCandidate {
    ProjectCandidate { name: name.to_string(), is_dir, has_readme: readme, has_claude: claude }
}

#[test]
fn projects_are_visible_directories_sorted() {
    let list = project_list(vec![
        cand("zeta", true, false, true),
        cand(".hidden", true, true, true),
        cand("notes.txt", false, false, false),
        cand("alpha", true, true, false),
    ]);
    assert_eq!(list.len(), 2);
    assert_eq!(list[0].name, "alpha");
    assert!(list[0].has_readme);
    assert!(!list[0].has_claude);
    assert_eq!(list[1].name, "zeta");
    assert!(list[1].has_claude);
}

#[test]
fn dual_listeners_with_both_credentials() {
    let plan = listener_plan(true, true, 3000);
    assert_eq!(plan.listeners, vec![
        Listener { loopback_only: true, tls: false, port: 3000 },
        Listener { loopback_only: false, tls: true, port: 3001 },
    ]);
    assert!(!plan.misconfigured);
    assert!(!plan.tls_unplaced);
}

#[test]
fn single_listener_with_one_credential() {
    let plan = listener_plan(true, false, 3000);
    assert_eq!(plan.listeners, vec![Listener { loopback_only: false, tls: false, port: 3000 }]);
    assert!(plan.misconfigured);
    let plan = listener_plan(false, true, 3000);
    assert_eq!(plan.listeners.len(), 1);
    assert!(plan.misconfigured);
}

#[test]
fn single_listener_without_credentials() {
    let plan = listener_plan(false, false, 65535);
    assert_eq!(plan.listeners, vec![Listener { loopback_only: false, tls: false, port: 65535 }]);
    assert!(!plan.misconfigured);
}

#[test]
fn loopback_listener_alone_at_the_last_port() {
    let plan = listener_plan(true, true, 65535);
    assert_eq!(plan.listeners, vec![Listener { loopback_only: true, tls: false, port: 65535 }]);
    assert!(plan.tls_unplaced);
    assert!(!plan.misconfigured);
}

#[test]
fn hub_events() {
    assert!(matches!(on_hub_event(HubEvent::Message("reload".to_string())), SessionAction::Forward(t) if t == "reload"));
    assert!(matches!(on_hub_event(HubEvent::Lagged(5)), SessionAction::Skipped(5)));
    assert!(matches!(on_hub_event(HubEvent::Closed), SessionAction::End));
    assert_eq!(HUB_CAPACITY, 64);
}

#[test]
fn peer_frames() {
    assert!(matches!(on_peer_frame(PeerFrame::Ping(vec![1, 2])), SessionAction::Pong(d) if d == vec![1, 2]));
    assert!(matches!(on_peer_frame(PeerFrame::Other), SessionAction::Ignore));
    assert!(matches!(on_peer_frame(PeerFrame::Close), SessionAction::End));
    assert!(matches!(on_peer_frame(PeerFrame::Error), SessionAction::End));
    assert!(matches!(on_peer_frame(PeerFrame::Ended), SessionAction::End));
    assert!(matches!(after_forward(true), SessionAction::Ignore));
    assert!(matches!(after_forward(false), SessionAction::End));
}

#[test]
fn asset_paths_and_choice() {
    assert_eq!(request_asset("/assets/app.js"), "assets/app.js");
    assert_eq!(request_asset("//x"), "x");
    assert_eq!(request_asset("/"), "");
    assert_eq!(choose_asset(true, true), AssetChoice::Exact);
    assert_eq!(choose_asset(false, true), AssetChoice::Index);
    assert_eq!(choose_asset(false, false), AssetChoice::Missing);
    assert_eq!(index_document(), "index.html");
}

#[test]
fn asset_headers_guess_type() {
    let h = asset_headers("assets/app.js");
    assert_eq!(h.content_type, "text/javascript");
    assert_eq!(h.cache_control, "public, max-age=3600");
    assert_eq!(asset_headers("index.html").content_type, "text/html");
    assert_eq!(asset_headers("blob").content_type, "application/octet-stream");
}

#[test]
fn log_line_shape() {
    assert_eq!(log_line("2024-01-01 00:00:00.000", "hello"), "[2024-01-01 00:00:00.000] [server] hello");
}
