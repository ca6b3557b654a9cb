use assignments::interlinker::client::{handle_msg, Client};
use assignments::interlinker::job::{accepts, html, is_listed, Action, Event, Job, Stage, State};
use assignments::interlinker::message::{ClientRequest, ResponseMessage};

fn start(client: &mut Client, origin: &str) -> Job {
    handle_msg(client, ClientRequest { subject: "start".into(), payload: origin.into() }).unwrap()
}

fn fetch(url: &str) -> Action {
    Action::Fetch { url: url.into() }
}

fn link(href: &str) -> Event {
    Event::Link { href: href.into() }
}

fn html_response() -> Event {
    Event::Response { content_type: Some("text/html; charset=utf-8".into()) }
}

fn result(for_url: &str, for_domain: &str, linked_url: &str, linked_domain: &str) -> Action {
    Action::Announce {
        message: ResponseMessage::ResultMessage {
            for_url: for_url.into(),
            for_domain: for_domain.into(),
            linked_url: linked_url.into(),
            linked_domain: linked_domain.into(),
        },
    }
}

fn finish(origin: &str) -> Action {
    Action::Finish { message: ResponseMessage::FinishMessage { origin: origin.into() } }
}

#[test]
fn a_link_is_announced_once_before_the_finish() {
    let mut client = Client::new(1);
    let mut job = start(&mut client, "https://a.example/");
    assert_eq!(client.active_origins, vec!["https://a.example/".to_string()]);
    assert_eq!(job.state(), State::Running);
    assert_eq!(job.stage(), Stage::Idle);
    assert_eq!(job.origin(), "https://a.example/");
    assert_eq!(job.pending(), 1);

    assert_eq!(job.step(Event::Start, &client.active_origins), fetch("https://a.example/"));
    assert!(job.has_visited("a.example"));
    assert_eq!(job.stage(), Stage::Fetching);
    assert_eq!(job.step(html_response(), &client.active_origins), Action::Scan);
    assert_eq!(
        job.step(link("https://b.example/x"), &client.active_origins),
        result("https://a.example/", "a.example", "https://b.example/x", "b.example")
    );
    assert!(!job.has_visited("b.example"));
    assert_eq!(job.step(Event::PageEnd, &client.active_origins), fetch("https://b.example/x"));
    assert!(job.has_visited("b.example"));
    assert_eq!(job.pending(), 0);
    assert_eq!(job.step(html_response(), &client.active_origins), Action::Scan);
    assert_eq!(
        job.step(Event::PageEnd, &client.active_origins),
        finish("https://a.example/")
    );
    assert_eq!(job.state(), State::Finished);
    assert_eq!(job.step(Event::Start, &client.active_origins), Action::Nothing);
    assert_eq!(job.step(link("https://c.example/"), &client.active_origins), Action::Nothing);
}

#[test]
fn a_stopped_job_finishes_when_its_page_ends() {
    let mut client = Client::new(7);
    let mut job = start(&mut client, "https://a.example/");
    job.step(Event::Start, &client.active_origins);
    job.step(html_response(), &client.active_origins);
    job.step(link("https://b.example/x"), &client.active_origins);

    let frame = "{\"subject\":\"stop-origin\",\"payload\":\"https://a.example/\"}";
    let parsed: serde_json::Value = serde_json::from_str(frame).unwrap();
    let request = ClientRequest {
        subject: parsed["subject"].as_str().unwrap().to_string(),
        payload: parsed["payload"].as_str().unwrap().to_string(),
    };
    assert!(handle_msg(&mut client, request).is_none());
    assert!(client.active_origins.is_empty());
    assert!(!client.is_active("https://a.example/"));

    // the page in flight is still read to its end
    assert_eq!(
        job.step(link("https://c.example/y"), &client.active_origins),
        result("https://a.example/", "a.example", "https://c.example/y", "c.example")
    );
    assert_eq!(job.pending(), 2);
    assert_eq!(job.step(Event::PageEnd, &client.active_origins), finish("https://a.example/"));
    assert_eq!(job.state(), State::Finished);
    assert_eq!(job.pending(), 2);
    assert_eq!(job.step(Event::PageEnd, &client.active_origins), Action::Nothing);
}

#[test]
fn a_failed_fetch_is_passed_over() {
    let mut client = Client::new(1);
    let mut job = start(&mut client, "https://a.example/");
    job.step(Event::Start, &client.active_origins);
    job.step(html_response(), &client.active_origins);
    job.step(link("https://b.example/x"), &client.active_origins);
    job.step(link("https://c.example/x"), &client.active_origins);
    assert_eq!(job.step(Event::PageEnd, &client.active_origins), fetch("https://b.example/x"));
    assert_eq!(job.step(Event::FetchFailed, &client.active_origins), fetch("https://c.example/x"));
    assert!(job.has_visited("b.example"));
    assert_eq!(job.state(), State::Running);
    assert_eq!(job.step(Event::FetchFailed, &client.active_origins), finish("https://a.example/"));
}

#[test]
fn a_failed_fetch_of_a_stopped_job_finishes_it() {
    let mut client = Client::new(1);
    let mut job = start(&mut client, "https://a.example/");
    job.step(Event::Start, &client.active_origins);
    client.stop("https://a.example/");
    assert_eq!(job.step(Event::FetchFailed, &client.active_origins), finish("https://a.example/"));
}

#[test]
fn other_content_yields_no_links() {
    let mut client = Client::new(1);
    let mut job = start(&mut client, "https://a.example/");
    job.step(Event::Start, &client.active_origins);
    job.step(html_response(), &client.active_origins);
    job.step(link("https://b.example/x"), &client.active_origins);
    job.step(link("https://c.example/x"), &client.active_origins);
    job.step(Event::PageEnd, &client.active_origins);
    // b.example answers with an image: its page is not read
    assert_eq!(
        job.step(
            Event::Response { content_type: Some("image/png".into()) },
            &client.active_origins
        ),
        fetch("https://c.example/x")
    );
    assert_eq!(job.step(link("https://d.example/"), &client.active_origins), Action::Nothing);
    // c.example answers without a content type
    assert_eq!(
        job.step(Event::Response { content_type: None }, &client.active_origins),
        finish("https://a.example/")
    );
}

#[test]
fn a_visited_domain_is_not_announced_again() {
    let mut client = Client::new(1);
    let mut job = start(&mut client, "https://a.example/");
    job.step(Event::Start, &client.active_origins);
    job.step(html_response(), &client.active_origins);
    assert_eq!(job.step(link("https://www.a.example/other"), &client.active_origins), Action::Scan);
    job.step(link("https://b.example/x"), &client.active_origins);
    job.step(Event::PageEnd, &client.active_origins);
    job.step(html_response(), &client.active_origins);
    assert_eq!(job.step(link("https://a.example/back"), &client.active_origins), Action::Scan);
    assert_eq!(job.step(link("https://b.example/self"), &client.active_origins), Action::Scan);
    assert_eq!(job.step(link("http://cdn.b.example/"), &client.active_origins), Action::Scan);
    assert_eq!(job.pending(), 0);
}

#[test]
fn a_queued_domain_is_announced_again_and_fetched_once() {
    let mut client = Client::new(1);
    let mut job = start(&mut client, "https://a.example/");
    job.step(Event::Start, &client.active_origins);
    job.step(html_response(), &client.active_origins);
    assert_eq!(
        job.step(link("https://b.example/x"), &client.active_origins),
        result("https://a.example/", "a.example", "https://b.example/x", "b.example")
    );
    assert_eq!(
        job.step(link("https://b.example/y"), &client.active_origins),
        result("https://a.example/", "a.example", "https://b.example/y", "b.example")
    );
    assert_eq!(job.step(Event::PageEnd, &client.active_origins), fetch("https://b.example/x"));
    // the second URL of b.example is dropped unfetched
    assert_eq!(job.step(Event::FetchFailed, &client.active_origins), finish("https://a.example/"));
}

#[test]
fn links_that_do_not_pass_are_dropped() {
    let mut client = Client::new(1);
    let mut job = start(&mut client, "https://a.example/");
    job.step(Event::Start, &client.active_origins);
    job.step(html_response(), &client.active_origins);
    assert_eq!(job.step(link("/relative"), &client.active_origins), Action::Scan);
    assert_eq!(job.step(link("ftp://b.example/"), &client.active_origins), Action::Scan);
    assert_eq!(job.step(link("mailto:me@b.example"), &client.active_origins), Action::Scan);
    assert_eq!(job.step(link("http://localhost/x"), &client.active_origins), Action::Scan);
    assert_eq!(job.step(link("http:// not a url"), &client.active_origins), Action::Scan);
    assert_eq!(job.pending(), 0);
}

#[test]
fn an_origin_without_a_domain_finishes_at_once() {
    let mut client = Client::new(1);
    let mut job = start(&mut client, "not a url");
    assert_eq!(job.step(Event::Start, &client.active_origins), finish("not a url"));
    assert_eq!(job.state(), State::Finished);
}

#[test]
fn an_undelivered_event_ends_the_job_without_a_finish() {
    let mut client = Client::new(1);
    let mut job = start(&mut client, "https://a.example/");
    job.step(Event::Start, &client.active_origins);
    job.step(html_response(), &client.active_origins);
    job.step(link("https://b.example/x"), &client.active_origins);
    assert_eq!(job.step(Event::DeliveryFailed, &client.active_origins), Action::Nothing);
    assert_eq!(job.state(), State::Finished);
    assert_eq!(job.step(Event::PageEnd, &client.active_origins), Action::Nothing);
}

#[test]
fn events_out_of_turn_change_nothing() {
    let mut client = Client::new(1);
    let mut job = start(&mut client, "https://a.example/");
    assert_eq!(job.step(Event::PageEnd, &client.active_origins), Action::Nothing);
    assert_eq!(job.step(Event::FetchFailed, &client.active_origins), Action::Nothing);
    assert_eq!(job.step(link("https://b.example/"), &client.active_origins), Action::Nothing);
    assert_eq!(job.stage(), Stage::Idle);
    assert_eq!(job.pending(), 1);
    job.step(Event::Start, &client.active_origins);
    assert_eq!(job.step(Event::Start, &client.active_origins), Action::Nothing);
    assert_eq!(job.step(Event::PageEnd, &client.active_origins), Action::Nothing);
    assert_eq!(job.stage(), Stage::Fetching);
}

#[test]
fn two_jobs_of_one_connection_keep_to_themselves() {
    let mut client = Client::new(3);
    let mut a = start(&mut client, "https://a.example/");
    let mut b = start(&mut client, "https://b.example/");
    assert_eq!(a.step(Event::Start, &client.active_origins), fetch("https://a.example/"));
    assert_eq!(b.step(Event::Start, &client.active_origins), fetch("https://b.example/"));
    assert_eq!(a.step(html_response(), &client.active_origins), Action::Scan);
    assert_eq!(b.step(html_response(), &client.active_origins), Action::Scan);
    assert_eq!(
        b.step(link("https://a.example/"), &client.active_origins),
        result("https://b.example/", "b.example", "https://a.example/", "a.example")
    );
    assert_eq!(
        a.step(link("https://c.example/"), &client.active_origins),
        result("https://a.example/", "a.example", "https://c.example/", "c.example")
    );
    client.stop("https://a.example/");
    assert_eq!(a.step(Event::PageEnd, &client.active_origins), finish("https://a.example/"));
    assert_eq!(b.step(Event::PageEnd, &client.active_origins), fetch("https://a.example/"));
    assert_eq!(b.step(Event::FetchFailed, &client.active_origins), finish("https://b.example/"));
    client.stop("https://b.example/");
    assert!(client.active_origins.is_empty());
}

#[test]
fn html_is_told_by_the_content_type() {
    assert!(html(&Some("text/html".to_string())));
    assert!(html(&Some("application/xhtml; text/html".to_string())));
    assert!(!html(&Some("text/htm".to_string())));
    assert!(!html(&Some("TEXT/HTML".to_string())));
    assert!(!html(&Some("".to_string())));
    assert!(!html(&None));
}

#[test]
fn the_filter_wants_an_http_prefix() {
    assert!(accepts("http://a.example/"));
    assert!(accepts("https://a.example/"));
    assert!(accepts("http"));
    assert!(!accepts("htt"));
    assert!(!accepts("/http"));
    assert!(!accepts("HTTP://a.example/"));
    assert!(!accepts(""));
}

#[test]
fn listing_is_by_equal_text() {
    let origins = vec!["https://a.example/".to_string(), "https://b.example/".to_string()];
    assert!(is_listed(&origins, "https://b.example/"));
    assert!(!is_listed(&origins, "https://b.example"));
    assert!(!is_listed(&Vec::new(), "https://a.example/"));
}

#[test]
fn stopping_is_idempotent_and_strikes_every_occurrence() {
    let mut client = Client::new(9);
    let _ = client.start("https://a.example/".to_string());
    let _ = client.start("https://b.example/".to_string());
    let _ = client.start("https://a.example/".to_string());
    assert_eq!(client.id, 9);
    assert!(client.is_active("https://a.example/"));
    client.stop("https://a.example/");
    assert_eq!(client.active_origins, vec!["https://b.example/".to_string()]);
    client.stop("https://a.example/");
    assert_eq!(client.active_origins, vec!["https://b.example/".to_string()]);
    client.stop("https://c.example/");
    assert_eq!(client.active_origins, vec!["https://b.example/".to_string()]);
}

#[test]
fn any_other_subject_starts_a_job() {
    let mut client = Client::new(1);
    let job = handle_msg(
        &mut client,
        ClientRequest { subject: "whatever".into(), payload: "https://a.example/".into() },
    );
    assert_eq!(job.unwrap().origin(), "https://a.example/");
    let job = handle_msg(
        &mut client,
        ClientRequest { subject: "".into(), payload: "https://a.example/".into() },
    );
    assert!(job.is_some());
    assert_eq!(client.active_origins.len(), 2);
}
