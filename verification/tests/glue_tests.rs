use sse_hub::form::{greeting, greeting_with_state, MyParams};
use sse_hub::queries::Queries;
use sse_hub::redirect::{check_route, CheckLogin, RouteDecision};

#[test]
fn greeting_names_the_poster() {
    let params = MyParams { name: "John".to_string() };
    assert_eq!(greeting(&params), "Your name is John");
}

#[test]
fn greeting_reports_the_app_state() {
    let params = MyParams { name: "John".to_string() };
    assert_eq!(
        greeting_with_state(&params, "bar"),
        "Your name is John, and in AppState I have foo: bar"
    );
}

#[test]
fn unauthenticated_requests_are_redirected() {
    assert_eq!(check_route(false, "/"), RouteDecision::RedirectToLogin);
    assert_eq!(check_route(false, "/account"), RouteDecision::RedirectToLogin);
}

#[test]
fn the_login_page_stays_reachable() {
    assert_eq!(check_route(false, "/login"), RouteDecision::Forward);
}

#[test]
fn authenticated_requests_pass() {
    assert_eq!(check_route(true, "/"), RouteDecision::Forward);
    assert_eq!(check_route(true, "/login"), RouteDecision::Forward);
}

#[test]
fn the_login_check_wraps_the_service() {
    let middleware = CheckLogin.new_transform(7u32);
    assert_eq!(middleware.service, 7u32);
}

#[test]
fn annual_queries_order_by_year_totals() {
    let hottest = Queries::GetTopTenHottestYears.statement();
    assert!(hottest.contains("GROUP BY theyear"));
    assert!(!hottest.contains("themonth"));
    assert!(hottest.contains("ORDER BY total DESC LIMIT 10"));
    let coldest = Queries::GetTopTenColdestYears.statement();
    assert!(coldest.contains("GROUP BY theyear"));
    assert!(coldest.contains("ORDER BY total ASC LIMIT 10"));
    assert!(Queries::GetTopTenHottestYears.is_annual());
    assert!(Queries::GetTopTenColdestYears.is_annual());
}

#[test]
fn monthly_queries_group_by_month_too() {
    let hottest = Queries::GetTopTenHottestMonths.statement();
    assert!(hottest.contains("GROUP BY theyear, themonth"));
    assert!(hottest.contains("ORDER BY total DESC LIMIT 10"));
    let coldest = Queries::GetTopTenColdestMonths.statement();
    assert!(coldest.contains("GROUP BY theyear, themonth"));
    assert!(coldest.contains("ORDER BY total ASC LIMIT 10"));
    assert!(!Queries::GetTopTenHottestMonths.is_annual());
    assert!(!Queries::GetTopTenColdestMonths.is_annual());
}
