use block_mesh::ready_state::WebSocketReadyState;
use block_mesh::routes::RoutesEnum;

#[test]
fn api_routes_have_their_paths() {
    assert_eq!(RoutesEnum::Api_GetTask.to_string(), "/get_task");
    assert_eq!(RoutesEnum::Api_SubmitBandwidth.to_string(), "/submit_bandwidth");
    assert_eq!(RoutesEnum::Api_CheckToken.to_string(), "/check_token");
    assert_eq!(RoutesEnum::Api_EMailViaToken.to_string(), "/get_email_via_token");
    assert_eq!(RoutesEnum::Api_ReportsQueue.to_string(), "/admin/reports_queue");
}

#[test]
fn root_and_nested_routes() {
    assert_eq!(RoutesEnum::Static_UnAuth_Root.to_string(), "/");
    assert_eq!(RoutesEnum::Static_Auth_Twitter_Login.as_str(), "/twitter/login");
    assert_eq!(RoutesEnum::Static_UnAuth_Twitter_Callback.as_str(), "/twitter/callback");
    assert_eq!(RoutesEnum::Static_Auth_Edit_Invite.as_str(), "/edit_invite_code");
}

#[test]
fn both_dashboards_share_a_path() {
    assert_eq!(
        RoutesEnum::Static_Auth_Dashboard.to_string(),
        RoutesEnum::Api_Dashboard.to_string()
    );
    assert_eq!(RoutesEnum::Api_Dashboard.as_str(), "/dashboard");
}

#[test]
fn ready_state_codes() {
    assert_eq!(WebSocketReadyState::from(0), WebSocketReadyState::CONNECTING);
    assert_eq!(WebSocketReadyState::from(1), WebSocketReadyState::OPEN);
    assert_eq!(WebSocketReadyState::from(2), WebSocketReadyState::CLOSING);
    assert_eq!(WebSocketReadyState::from(3), WebSocketReadyState::CLOSED);
    assert_eq!(WebSocketReadyState::from(4), WebSocketReadyState::INVALID);
    assert_eq!(WebSocketReadyState::from(u16::MAX), WebSocketReadyState::INVALID);
}
