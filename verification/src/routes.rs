//! The static table of HTTP paths that the manager serves.

use vstd::prelude::*;

verus! {

/// Every route of the manager: pages that need no session, pages that need
/// one, and the JSON API.
#[allow(non_camel_case_types)]
#[derive(Debug, Clone, Copy, PartialEq, Eq, Structural)]
pub enum RoutesEnum {
    Static_UnAuth_Map,
    Static_UnAuth_AuthStatus,
    Static_UnAuth_RpcDashboard,
    Static_UnAuth_RpcApi,
    Static_UnAuth_Notification,
    Static_UnAuth_EmailConfirm,
    Static_UnAuth_ResetPassword,
    Static_UnAuth_ResendConfirmationEmail,
    Static_UnAuth_NewPassword,
    Static_UnAuth_Root,
    Static_UnAuth_Error,
    Static_UnAuth_RegisterApi,
    Static_UnAuth_Register,
    Static_UnAuth_Register_Wallet,
    Static_UnAuth_Version,
    Static_UnAuth_Unsubscribe,
    Static_UnAuth_Login,
    Static_UnAuth_Login_Wallet,
    Static_UnAuth_HealthCheck,
    Static_UnAuth_Health,
    Static_Auth_Twitter_Login,
    Static_Auth_Edit_Invite,
    Static_Auth_Call_To_Action,
    Static_Auth_Logout,
    Static_Auth_Dashboard,
    Static_Auth_Daily_Leaderboard,
    Static_UnAuth_Twitter_Callback,
    Api_ConnectWallet,
    Api_ReportUptime,
    Api_SubmitBandwidth,
    Api_GetToken,
    Api_GetTask,
    Api_SubmitTask,
    Api_GetStats,
    Api_GetLatestInviteCode,
    Api_CreateTaskWithToken,
    Api_CheckToken,
    Api_EMailViaToken,
    Api_Dashboard,
    Api_ReportsQueue,
}

impl RoutesEnum {
    /// The path under which the route is mounted.
    pub open spec fn path(self) -> Seq<char> {
        match self {
            RoutesEnum::Static_UnAuth_Map => "/map"@,
            RoutesEnum::Static_UnAuth_AuthStatus => "/auth_status"@,
            RoutesEnum::Static_UnAuth_RpcDashboard => "/rpc_dashboard"@,
            RoutesEnum::Static_UnAuth_RpcApi => "/rpc_api"@,
            RoutesEnum::Static_UnAuth_Notification => "/notification"@,
            RoutesEnum::Static_UnAuth_EmailConfirm => "/email_confirm"@,
            RoutesEnum::Static_UnAuth_ResetPassword => "/reset_password"@,
            RoutesEnum::Static_UnAuth_ResendConfirmationEmail => "/resend_confirmation_email"@,
            RoutesEnum::Static_UnAuth_NewPassword => "/new_password"@,
            RoutesEnum::Static_UnAuth_Root => "/"@,
            RoutesEnum::Static_UnAuth_Error => "/error"@,
            RoutesEnum::Static_UnAuth_RegisterApi => "/register_api"@,
            RoutesEnum::Static_UnAuth_Register => "/register"@,
            RoutesEnum::Static_UnAuth_Register_Wallet => "/register_wallet"@,
            RoutesEnum::Static_UnAuth_Version => "/version"@,
            RoutesEnum::Static_UnAuth_Unsubscribe => "/unsubscribe"@,
            RoutesEnum::Static_UnAuth_Login => "/login"@,
            RoutesEnum::Static_UnAuth_Login_Wallet => "/login_wallet"@,
            RoutesEnum::Static_UnAuth_HealthCheck => "/health_check"@,
            RoutesEnum::Static_UnAuth_Health => "/health"@,
            RoutesEnum::Static_Auth_Twitter_Login => "/twitter/login"@,
            RoutesEnum::Static_Auth_Edit_Invite => "/edit_invite_code"@,
            RoutesEnum::Static_Auth_Call_To_Action => "/call_to_action"@,
            RoutesEnum::Static_Auth_Logout => "/logout"@,
            RoutesEnum::Static_Auth_Dashboard => "/dashboard"@,
            RoutesEnum::Static_Auth_Daily_Leaderboard => "/daily_leaderboard"@,
            RoutesEnum::Static_UnAuth_Twitter_Callback => "/twitter/callback"@,
            RoutesEnum::Api_ConnectWallet => "/connect_wallet"@,
            RoutesEnum::Api_ReportUptime => "/report_uptime"@,
            RoutesEnum::Api_SubmitBandwidth => "/submit_bandwidth"@,
            RoutesEnum::Api_GetToken => "/get_token"@,
            RoutesEnum::Api_GetTask => "/get_task"@,
            RoutesEnum::Api_SubmitTask => "/submit_task"@,
            RoutesEnum::Api_GetStats => "/get_stats"@,
            RoutesEnum::Api_GetLatestInviteCode => "/get_latest_invite_code"@,
            RoutesEnum::Api_CreateTaskWithToken => "/create_task_with_token"@,
            RoutesEnum::Api_CheckToken => "/check_token"@,
            RoutesEnum::Api_EMailViaToken => "/get_email_via_token"@,
            RoutesEnum::Api_Dashboard => "/dashboard"@,
            RoutesEnum::Api_ReportsQueue => "/admin/reports_queue"@,
        }
    }

    /// The path of the route as a borrowed literal.
    pub fn as_str(&self) -> (path: &'static str)
        ensures
            path@ == self.path(),
    {
        match self {
            RoutesEnum::Static_UnAuth_Map => "/map",
            RoutesEnum::Static_UnAuth_AuthStatus => "/auth_status",
            RoutesEnum::Static_UnAuth_RpcDashboard => "/rpc_dashboard",
            RoutesEnum::Static_UnAuth_RpcApi => "/rpc_api",
            RoutesEnum::Static_UnAuth_Notification => "/notification",
            RoutesEnum::Static_UnAuth_EmailConfirm => "/email_confirm",
            RoutesEnum::Static_UnAuth_ResetPassword => "/reset_password",
            RoutesEnum::Static_UnAuth_ResendConfirmationEmail => "/resend_confirmation_email",
            RoutesEnum::Static_UnAuth_NewPassword => "/new_password",
            RoutesEnum::Static_UnAuth_Root => "/",
            RoutesEnum::Static_UnAuth_Error => "/error",
            RoutesEnum::Static_UnAuth_RegisterApi => "/register_api",
            RoutesEnum::Static_UnAuth_Register => "/register",
            RoutesEnum::Static_UnAuth_Register_Wallet => "/register_wallet",
            RoutesEnum::Static_UnAuth_Version => "/version",
            RoutesEnum::Static_UnAuth_Unsubscribe => "/unsubscribe",
            RoutesEnum::Static_UnAuth_Login => "/login",
            RoutesEnum::Static_UnAuth_Login_Wallet => "/login_wallet",
            RoutesEnum::Static_UnAuth_HealthCheck => "/health_check",
            RoutesEnum::Static_UnAuth_Health => "/health",
            RoutesEnum::Static_Auth_Twitter_Login => "/twitter/login",
            RoutesEnum::Static_Auth_Edit_Invite => "/edit_invite_code",
            RoutesEnum::Static_Auth_Call_To_Action => "/call_to_action",
            RoutesEnum::Static_Auth_Logout => "/logout",
            RoutesEnum::Static_Auth_Dashboard => "/dashboard",
            RoutesEnum::Static_Auth_Daily_Leaderboard => "/daily_leaderboard",
            RoutesEnum::Static_UnAuth_Twitter_Callback => "/twitter/callback",
            RoutesEnum::Api_ConnectWallet => "/connect_wallet",
            RoutesEnum::Api_ReportUptime => "/report_uptime",
            RoutesEnum::Api_SubmitBandwidth => "/submit_bandwidth",
            RoutesEnum::Api_GetToken => "/get_token",
            RoutesEnum::Api_GetTask => "/get_task",
            RoutesEnum::Api_SubmitTask => "/submit_task",
            RoutesEnum::Api_GetStats => "/get_stats",
            RoutesEnum::Api_GetLatestInviteCode => "/get_latest_invite_code",
            RoutesEnum::Api_CreateTaskWithToken => "/create_task_with_token",
            RoutesEnum::Api_CheckToken => "/check_token",
            RoutesEnum::Api_EMailViaToken => "/get_email_via_token",
            RoutesEnum::Api_Dashboard => "/dashboard",
            RoutesEnum::Api_ReportsQueue => "/admin/reports_queue",
        }
    }

    /// The path of the route as an owned string, ready to hand to a router.
    pub fn to_string(&self) -> (path: String)
        ensures
            path@ == self.path(),
    {
        self.as_str().to_owned()
    }
}

} // verus!
