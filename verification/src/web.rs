//! The text that the server's admin interface serves: the Prometheus
//! metrics page, the dashboard's lists, and the readiness answer.
use vstd::prelude::*;
use crate::metrics::{Metrics, ProxyMetrics};
use crate::nathole::XtcpEvent;
use crate::text::{decimal, decimal_string, cat3, cat5, string_from};

verus! {

/// One line of the dashboard's proxy-type list.
#[derive(Debug, Clone)]
pub struct TypeCount {
    pub proxy_type: String,
    pub total: usize,
}

/// The figures of the status snapshot that the pages show.
#[derive(Debug, Clone, Copy)]
pub struct StatusCounts {
    pub active_controls: usize,
    pub active_proxies: usize,
    pub pending_work_connections: usize,
    pub idle_work_connections: usize,
}

/// The server is ready: some client is connected, or no proxy is expected.
pub fn active_ready(status: &StatusCounts) -> (ready: bool)
    ensures
        ready == (status.active_controls > 0 || status.active_proxies == 0),
{
    status.active_controls > 0 || status.active_proxies == 0
}

/// The empty list item.
pub open spec fn none_item() -> Seq<char> {
    "<li>none</li>"@
}

/// The list item of one proxy type.
pub open spec fn type_item(t: TypeCount) -> Seq<char> {
    "<li><code>"@ + t.proxy_type@ + "</code>: "@ + decimal(t.total as nat) + "</li>"@
}

/// The list items of `items`, in order.
pub open spec fn type_items(items: Seq<TypeCount>) -> Seq<char>
    decreases items.len(),
{
    if items.len() == 0 {
        Seq::empty()
    } else {
        type_items(items.drop_last()) + type_item(items.last())
    }
}

/// The dashboard's list of proxy types with their counts.
pub fn render_type_counts(items: &[TypeCount]) -> (html: String)
    ensures
        html@ == if items@.len() == 0 {
            none_item()
        } else {
            type_items(items@)
        },
{
    if items.len() == 0 {
        return String::from_str("<li>none</li>");
    }
    let mut html = String::new();
    let mut i: usize = 0;
    while i < items.len()
        invariant
            i <= items@.len(),
            html@ == type_items(items@.take(i as int)),
        decreases items.len() - i,
    {
        let t = &items[i];
        let n = decimal_string(t.total as u64);
        let item = cat5("<li><code>", t.proxy_type.as_str(), "</code>: ", n.as_str(), "</li>");
        html.append(item.as_str());
        assert(items@.take(i + 1).drop_last() =~= items@.take(i as int));
        i = i + 1;
    }
    assert(items@.take(i as int) =~= items@);
    html
}

/// The list item of one xtcp event.
pub open spec fn event_item(e: XtcpEvent) -> Seq<char> {
    "<li><code>"@ + e.stage@ + "</code> proxy=<code>"@ + e.proxy_name@ + "</code> visitor=<code>"@
        + e.visitor_addr@ + "</code> relay=<code>"@ + e.relay_addr@ + "</code> err=<code>"@
        + e.error@ + "</code></li>"@
}

/// The list items of the last `n` events of `items`, newest first.
pub open spec fn newest_event_items(items: Seq<XtcpEvent>, n: nat) -> Seq<char>
    decreases n,
{
    if n == 0 || items.len() == 0 {
        Seq::empty()
    } else {
        event_item(items.last()) + newest_event_items(items.drop_last(), (n - 1) as nat)
    }
}

/// The dashboard's list of recent xtcp events: the newest eight, newest
/// first.
pub fn render_xtcp_events(items: &[XtcpEvent]) -> (html: String)
    ensures
        html@ == if items@.len() == 0 {
            none_item()
        } else {
            newest_event_items(items@, 8)
        },
{
    if items.len() == 0 {
        return String::from_str("<li>none</li>");
    }
    let mut html = String::new();
    let mut shown: usize = 0;
    let mut end: usize = items.len();
    assert(items@.take(end as int) =~= items@);
    assert(html@ + newest_event_items(items@, 8) =~= newest_event_items(items@, 8));
    while shown < 8 && end > 0
        invariant
            shown <= 8,
            end <= items@.len(),
            html@ + newest_event_items(items@.take(end as int), (8 - shown) as nat)
                == newest_event_items(items@, 8),
        decreases end,
    {
        let e = &items[end - 1];
        let a = cat5("<li><code>", e.stage.as_str(), "</code> proxy=<code>", e.proxy_name.as_str(), "</code> visitor=<code>");
        let b = cat5(a.as_str(), e.visitor_addr.as_str(), "</code> relay=<code>", e.relay_addr.as_str(), "</code> err=<code>");
        let item = cat3(b.as_str(), e.error.as_str(), "</code></li>");
        let ghost before = html@;
        html.append(item.as_str());
        proof {
            let s = items@.take(end as int);
            assert(s.last() == *e);
            assert(s.drop_last() =~= items@.take(end - 1));
            assert(item@ =~= event_item(*e));
            assert(html@ + newest_event_items(items@.take(end - 1), (8 - shown - 1) as nat) =~= before
                + newest_event_items(s, (8 - shown) as nat));
        }
        shown = shown + 1;
        end = end - 1;
    }
    proof {
        assert(newest_event_items(items@.take(end as int), (8 - shown) as nat) == Seq::<char>::empty());
        assert(html@ + Seq::<char>::empty() =~= html@);
    }
    html
}

/// The lines of the metrics page: each name, a space, the value.
pub open spec fn metric_lines(pairs: Seq<(Seq<char>, u64)>) -> Seq<char>
    decreases pairs.len(),
{
    if pairs.len() == 0 {
        Seq::empty()
    } else {
        metric_lines(pairs.drop_last()) + pairs.last().0 + " "@ + decimal(pairs.last().1 as nat)
            + "\n"@
    }
}

/// The figures of the metrics page, by name, in the order they are shown.
pub open spec fn metric_pairs(status: StatusCounts, m: Metrics) -> Seq<(Seq<char>, u64)> {
    seq![
        ("arp_active_controls"@, status.active_controls as u64),
        ("arp_active_proxies"@, status.active_proxies as u64),
        ("arp_pending_work_connections"@, status.pending_work_connections as u64),
        ("arp_idle_work_connections"@, status.idle_work_connections as u64),
        ("arp_incoming_connections_total"@, m.incoming_connections_total),
        ("arp_work_connections_total"@, m.work_connections_total),
        ("arp_tcp_proxy_connections_total"@, m.tcp_proxy_connections_total),
        ("arp_tcp_proxy_errors_total"@, m.tcp_proxy_errors_total),
        ("arp_tcp_mux_streams_opened_total"@, m.tcp_mux_streams_opened_total),
        ("arp_tcp_bytes_in_total"@, m.tcp_bytes_in_total),
        ("arp_tcp_bytes_out_total"@, m.tcp_bytes_out_total),
        ("arp_auth_failures_total"@, m.auth_failures_total),
        ("arp_proxy_registrations_total"@, m.proxy_registrations_total),
        ("arp_proxy_registration_failures_total"@, m.proxy_registration_failures_total),
        ("arp_req_work_conn_total"@, m.req_work_conn_total),
        ("arp_idle_work_conn_hits_total"@, m.idle_work_conn_hits_total),
        ("arp_xtcp_visitor_requests_total"@, m.xtcp_visitor_requests_total),
        ("arp_xtcp_sk_mismatch_total"@, m.xtcp_sk_mismatch_total),
        ("arp_xtcp_owner_not_found_total"@, m.xtcp_owner_not_found_total),
        ("arp_xtcp_owner_offline_total"@, m.xtcp_owner_offline_total),
        ("arp_xtcp_owner_requests_forwarded_total"@, m.xtcp_owner_requests_forwarded_total),
        ("arp_xtcp_responses_forwarded_total"@, m.xtcp_responses_forwarded_total),
    ]
}

/// Appends one metrics line.
fn push_metric(out: &mut String, name: &str, value: u64)
    ensures
        final(out)@ == old(out)@ + name@ + " "@ + decimal(value as nat) + "\n"@,
{
    let v = decimal_string(value);
    let line = cat5(name, " ", v.as_str(), "\n", "");
    proof {
        reveal_strlit("");
    }
    out.append(line.as_str());
    assert(out@ =~= old(out)@ + name@ + " "@ + decimal(value as nat) + "\n"@);
}

/// One per-proxy metrics line: `metric{proxy="name"} value`.
pub open spec fn labeled_line(metric: Seq<char>, name: Seq<char>, value: u64) -> Seq<char> {
    metric + "{proxy=\""@ + name + "\"} "@ + decimal(value as nat) + "\n"@
}

/// The lines of one proxy: its bytes in and out, its connections and its
/// errors.
pub open spec fn proxy_metric_lines(name: Seq<char>, p: ProxyMetrics) -> Seq<char> {
    labeled_line("arp_proxy_bytes_in"@, name, p.bytes_in) + labeled_line(
        "arp_proxy_bytes_out"@,
        name,
        p.bytes_out,
    ) + labeled_line("arp_proxy_connections_total"@, name, p.connections_total) + labeled_line(
        "arp_proxy_errors_total"@,
        name,
        p.errors,
    )
}

/// The lines of each proxy, in the order given.
pub open spec fn all_proxy_lines(ps: Seq<(String, ProxyMetrics)>) -> Seq<char>
    decreases ps.len(),
{
    if ps.len() == 0 {
        Seq::empty()
    } else {
        all_proxy_lines(ps.drop_last()) + proxy_metric_lines(ps.last().0@, ps.last().1)
    }
}

/// Appends one per-proxy metrics line.
fn push_labeled(out: &mut String, metric: &str, name: &str, value: u64)
    ensures
        final(out)@ == old(out)@ + labeled_line(metric@, name@, value),
{
    let v = decimal_string(value);
    let head = cat3(metric, "{proxy=\"", name);
    let line = cat5(head.as_str(), "\"} ", v.as_str(), "\n", "");
    proof {
        reveal_strlit("");
    }
    out.append(line.as_str());
    assert(out@ =~= old(out)@ + labeled_line(metric@, name@, value));
}

/// The metrics page in the Prometheus text format: the global counters,
/// then the lines of each proxy in `proxies`.
pub fn render_metrics(status: &StatusCounts, m: &Metrics, proxies: &[(String, ProxyMetrics)]) -> (text:
    String)
    ensures
        text@ == metric_lines(metric_pairs(*status, *m)) + all_proxy_lines(proxies@),
{
    let pairs: Vec<(&str, u64)> = vec![
        ("arp_active_controls", status.active_controls as u64),
        ("arp_active_proxies", status.active_proxies as u64),
        ("arp_pending_work_connections", status.pending_work_connections as u64),
        ("arp_idle_work_connections", status.idle_work_connections as u64),
        ("arp_incoming_connections_total", m.incoming_connections_total),
        ("arp_work_connections_total", m.work_connections_total),
        ("arp_tcp_proxy_connections_total", m.tcp_proxy_connections_total),
        ("arp_tcp_proxy_errors_total", m.tcp_proxy_errors_total),
        ("arp_tcp_mux_streams_opened_total", m.tcp_mux_streams_opened_total),
        ("arp_tcp_bytes_in_total", m.tcp_bytes_in_total),
        ("arp_tcp_bytes_out_total", m.tcp_bytes_out_total),
        ("arp_auth_failures_total", m.auth_failures_total),
        ("arp_proxy_registrations_total", m.proxy_registrations_total),
        ("arp_proxy_registration_failures_total", m.proxy_registration_failures_total),
        ("arp_req_work_conn_total", m.req_work_conn_total),
        ("arp_idle_work_conn_hits_total", m.idle_work_conn_hits_total),
        ("arp_xtcp_visitor_requests_total", m.xtcp_visitor_requests_total),
        ("arp_xtcp_sk_mismatch_total", m.xtcp_sk_mismatch_total),
        ("arp_xtcp_owner_not_found_total", m.xtcp_owner_not_found_total),
        ("arp_xtcp_owner_offline_total", m.xtcp_owner_offline_total),
        ("arp_xtcp_owner_requests_forwarded_total", m.xtcp_owner_requests_forwarded_total),
        ("arp_xtcp_responses_forwarded_total", m.xtcp_responses_forwarded_total),
    ];
    let ghost spec_pairs = metric_pairs(*status, *m);
    assert(pairs@.len() == spec_pairs.len());
    assert(forall|k: int|
        0 <= k < pairs@.len() ==> (#[trigger] pairs@[k]).0@ == spec_pairs[k].0 && pairs@[k].1
            == spec_pairs[k].1);
    let mut text = String::new();
    let mut i: usize = 0;
    while i < pairs.len()
        invariant
            i <= pairs@.len(),
            pairs@.len() == spec_pairs.len(),
            forall|k: int|
                0 <= k < pairs@.len() ==> (#[trigger] pairs@[k]).0@ == spec_pairs[k].0 && pairs@[k].1
                    == spec_pairs[k].1,
            text@ == metric_lines(spec_pairs.take(i as int)),
        decreases pairs.len() - i,
    {
        let (name, value) = pairs[i];
        push_metric(&mut text, name, value);
        assert(spec_pairs.take(i + 1).drop_last() =~= spec_pairs.take(i as int));
        i = i + 1;
    }
    assert(spec_pairs.take(i as int) =~= spec_pairs);
    let ghost global = text@;
    let mut j: usize = 0;
    while j < proxies.len()
        invariant
            j <= proxies@.len(),
            text@ == global + all_proxy_lines(proxies@.take(j as int)),
        decreases proxies.len() - j,
    {
        let name = proxies[j].0.as_str();
        let pm = proxies[j].1;
        push_labeled(&mut text, "arp_proxy_bytes_in", name, pm.bytes_in);
        push_labeled(&mut text, "arp_proxy_bytes_out", name, pm.bytes_out);
        push_labeled(&mut text, "arp_proxy_connections_total", name, pm.connections_total);
        push_labeled(&mut text, "arp_proxy_errors_total", name, pm.errors);
        assert(proxies@.take(j + 1).drop_last() =~= proxies@.take(j as int));
        assert(text@ =~= global + all_proxy_lines(proxies@.take(j + 1)));
        j = j + 1;
    }
    assert(proxies@.take(j as int) =~= proxies@);
    text
}


/// The pieces of the dashboard page between its figures.
pub open spec fn dash_head() -> Seq<char> {
    "<!doctype html>\n<html>\n<head>\n  <meta charset=\"utf-8\">\n  <title>ARP Dashboard</title>\n  <style>\n    body { font-family: Menlo, monospace; margin: 32px; background: #f6f7fb; color: #222; }\n    .grid { display: grid; gap: 16px; max-width: 1100px; }\n    .card { background: #fff; border: 1px solid #d9dce5; border-radius: 10px; padding: 16px; }\n    h1, h2 { margin-top: 0; }\n    .num { font-size: 28px; font-weight: 700; }\n    code { background: #f3f4f8; padding: 1px 4px; border-radius: 4px; }\n    ul { padding-left: 18px; }\n  </style>\n</head>\n<body>\n  <div class=\"grid\">\n    <div class=\"card\">\n      <h1>ARP Dashboard</h1>\n      <p>Protocol: <code>"@
}

pub open spec fn dash_after_protocol() -> Seq<char> {
    "</code></p>\n      <p>Server Bind: <code>"@
}

pub open spec fn dash_colon() -> Seq<char> {
    ":"@
}

pub open spec fn dash_after_port() -> Seq<char> {
    "</code></p>\n      <p>Active Controls: <span class=\"num\">"@
}

pub open spec fn dash_after_controls() -> Seq<char> {
    "</span></p>\n      <p>Active Proxies: <span class=\"num\">"@
}

pub open spec fn dash_after_proxies() -> Seq<char> {
    "</span></p>\n      <p>Pending Work Connections: <span class=\"num\">"@
}

pub open spec fn dash_after_pending() -> Seq<char> {
    "</span></p>\n      <p>Idle Work Connections: <span class=\"num\">"@
}

pub open spec fn dash_after_idle() -> Seq<char> {
    "</span></p>\n      <p>Admin API: <a href=\"/api/v1/status\">/api/v1/status</a>, <a href=\"/api/v1/proxies\">/api/v1/proxies</a>, <a href=\"/api/v1/clients\">/api/v1/clients</a></p>\n    </div>\n    <div class=\"card\">\n      <h2>Proxy Types</h2>\n      <ul>"@
}

pub open spec fn dash_after_types() -> Seq<char> {
    "</ul>\n    </div>\n    <div class=\"card\">\n      <h2>Recent XTCP Events</h2>\n      <ul>"@
}

pub open spec fn dash_tail() -> Seq<char> {
    "</ul>\n    </div>\n  </div>\n</body>\n</html>"@
}

/// The dashboard page: transport, bind address, the four figures, the
/// proxy-type items and the recent xtcp event items.
pub open spec fn dashboard_html(
    protocol: Seq<char>,
    bind_addr: Seq<char>,
    bind_port: u16,
    s: StatusCounts,
    types_html: Seq<char>,
    events_html: Seq<char>,
) -> Seq<char> {
    dash_head() + protocol + dash_after_protocol() + bind_addr + dash_colon() + decimal(bind_port as nat)
        + dash_after_port() + decimal(s.active_controls as nat) + dash_after_controls() + decimal(
        s.active_proxies as nat,
    ) + dash_after_proxies() + decimal(s.pending_work_connections as nat) + dash_after_pending()
        + decimal(s.idle_work_connections as nat) + dash_after_idle() + types_html + dash_after_types()
        + events_html + dash_tail()
}

/// Renders the dashboard page.
pub fn render_dashboard(
    protocol: &str,
    bind_addr: &str,
    bind_port: u16,
    status: &StatusCounts,
    type_counts: &[TypeCount],
    events: &[XtcpEvent],
) -> (html: String)
    ensures
        html@ == dashboard_html(
            protocol@,
            bind_addr@,
            bind_port,
            *status,
            if type_counts@.len() == 0 {
                none_item()
            } else {
                type_items(type_counts@)
            },
            if events@.len() == 0 {
                none_item()
            } else {
                newest_event_items(events@, 8)
            },
        ),
{
    let types = render_type_counts(type_counts);
    let evs = render_xtcp_events(events);
    let mut out = string_from("<!doctype html>\n<html>\n<head>\n  <meta charset=\"utf-8\">\n  <title>ARP Dashboard</title>\n  <style>\n    body { font-family: Menlo, monospace; margin: 32px; background: #f6f7fb; color: #222; }\n    .grid { display: grid; gap: 16px; max-width: 1100px; }\n    .card { background: #fff; border: 1px solid #d9dce5; border-radius: 10px; padding: 16px; }\n    h1, h2 { margin-top: 0; }\n    .num { font-size: 28px; font-weight: 700; }\n    code { background: #f3f4f8; padding: 1px 4px; border-radius: 4px; }\n    ul { padding-left: 18px; }\n  </style>\n</head>\n<body>\n  <div class=\"grid\">\n    <div class=\"card\">\n      <h1>ARP Dashboard</h1>\n      <p>Protocol: <code>");
    out.append(protocol);
    out.append("</code></p>\n      <p>Server Bind: <code>");
    out.append(bind_addr);
    out.append(":");
    out.append(decimal_string(bind_port as u64).as_str());
    out.append("</code></p>\n      <p>Active Controls: <span class=\"num\">");
    out.append(decimal_string(status.active_controls as u64).as_str());
    out.append("</span></p>\n      <p>Active Proxies: <span class=\"num\">");
    out.append(decimal_string(status.active_proxies as u64).as_str());
    out.append("</span></p>\n      <p>Pending Work Connections: <span class=\"num\">");
    out.append(decimal_string(status.pending_work_connections as u64).as_str());
    out.append("</span></p>\n      <p>Idle Work Connections: <span class=\"num\">");
    out.append(decimal_string(status.idle_work_connections as u64).as_str());
    out.append("</span></p>\n      <p>Admin API: <a href=\"/api/v1/status\">/api/v1/status</a>, <a href=\"/api/v1/proxies\">/api/v1/proxies</a>, <a href=\"/api/v1/clients\">/api/v1/clients</a></p>\n    </div>\n    <div class=\"card\">\n      <h2>Proxy Types</h2>\n      <ul>");
    out.append(types.as_str());
    out.append("</ul>\n    </div>\n    <div class=\"card\">\n      <h2>Recent XTCP Events</h2>\n      <ul>");
    out.append(evs.as_str());
    out.append("</ul>\n    </div>\n  </div>\n</body>\n</html>");
    out
}

} // verus!
