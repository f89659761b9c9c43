use moaremotes::check::{
    debug_line, judge_get, judge_head, CheckEvent, CheckStep, HeadVerdict, UrlCheck,
};
use moaremotes::editor::Moaremotes;
use moaremotes::http::{is_success, show_status, show_test};

fn editor(lines: Vec<String>) -> Moaremotes {
    let mut editor = Moaremotes::new(80, 24);
    editor.lines = lines;
    editor.check_duplicates();
    editor
}

fn finished(head: Result<u16, String>) -> (bool, String) {
    match judge_head(head) {
        HeadVerdict::Finished(probe) => (probe.missing, probe.info),
        HeadVerdict::TryGet => panic!("not finished"),
    }
}

#[test]
fn success_is_two_hundred_and_up() {
    for code in 100..1000u16 {
        let status = reqwest::StatusCode::from_u16(code).unwrap();
        assert_eq!(is_success(code), status.is_success());
    }
    assert!(!is_success(0));
}

#[test]
fn statuses_are_shown() {
    let ok = Some("OK".to_string());
    assert_eq!(show_status(200, &ok), "200 OK");
    assert_eq!(
        show_status(299, &None),
        reqwest::StatusCode::from_u16(299).unwrap().to_string()
    );
    assert_eq!(show_test(200, &ok), "test response: 200 OK - OK");
    assert_eq!(
        show_test(299, &None),
        "test response: 299 <unknown status code> - Unknown"
    );
}

#[test]
fn answers_to_head_requests_are_judged() {
    assert_eq!(finished(Ok(200)), (false, "200".to_string()));
    assert_eq!(finished(Ok(404)), (true, "404".to_string()));
    assert_eq!(finished(Ok(301)), (true, "301".to_string()));
    assert!(matches!(judge_head(Ok(405)), HeadVerdict::TryGet));
    assert_eq!(
        finished(Err("short".to_string())),
        (true, "ERROR: short".to_string())
    );
    assert_eq!(
        finished(Err("éééééééééééééééééééé!".to_string())),
        (true, "ERROR: éééééééééééééééééééé".to_string())
    );
}

#[test]
fn answers_to_get_requests_are_judged() {
    let good = judge_get(405, Some(204));
    assert!(!good.missing);
    assert_eq!(good.info, "HEAD:405, GET:204");
    let gone = judge_get(405, Some(410));
    assert!(gone.missing);
    assert_eq!(gone.info, "HEAD:405, GET:410");
    let failed = judge_get(405, None);
    assert!(failed.missing);
    assert_eq!(failed.info, "HEAD:405, GET:FAIL");
}

#[test]
fn the_first_rows_are_printed() {
    assert_eq!(
        debug_line(4, "http://a", "200"),
        Some("debug: URL http://a -> 200".to_string())
    );
    assert_eq!(debug_line(5, "http://a", "200"), None);
}

#[test]
fn a_check_goes_through_all_addresses() {
    let mut lines = vec!["[".to_string()];
    for i in 0..45 {
        lines.push(format!("[\"http://{}\"],", i));
    }
    lines.push("]".to_string());
    let mut e = editor(lines);
    e.missing_emotes.insert(3);
    let mut check = UrlCheck::new();

    let step = e.check_missing_emotes(&mut check, CheckEvent::Wanted);
    assert!(matches!(step, CheckStep::MakeClient));
    assert!(e.checking_urls);
    assert!(e.missing_emotes.is_empty());

    let step = e.check_missing_emotes(&mut check, CheckEvent::Client(Ok(())));
    match step {
        CheckStep::Try(url) => assert_eq!(url, "http://0"),
        step => panic!("{:?}", step),
    }
    assert_eq!(e.check_progress, (0, 45));
    assert_eq!(e.status_message, "testing connection to http://0...");

    let mut step = e.check_missing_emotes(&mut check, CheckEvent::Tried(Ok(404)));
    assert_eq!(
        e.status_message,
        "test response: 404 Not Found - Not Found"
    );

    let mut asked = vec![];
    let mut sizes = vec![];
    let mut missing_so_far = 0;
    while let CheckStep::Ask(chunk) = step {
        sizes.push(chunk.len());
        let missing: Vec<bool> = chunk.iter().map(|(row, _)| row % 10 == 0).collect();
        missing_so_far += missing.iter().filter(|m| **m).count();
        asked.extend(chunk);
        step = e.check_missing_emotes(&mut check, CheckEvent::Asked(missing, "1.5".to_string()));
        assert_eq!(check.completed, asked.len());
        assert_eq!(e.check_progress, (asked.len(), 45));
        assert_eq!(e.missing_emotes.len(), missing_so_far);
        assert_eq!(check.good + e.missing_emotes.len(), check.completed);
        assert_eq!(
            e.status_message,
            format!(
                "checking urls... {}/45 ({} good, {} missing, 1.5s)",
                asked.len(),
                asked.len() - missing_so_far,
                missing_so_far
            )
        );
        assert!(e.checking_urls);
    }
    assert_eq!(sizes, [20, 20, 5]);
    let expected: Vec<(usize, String)> =
        (0..45).map(|i| (i + 1, format!("http://{}", i))).collect();
    assert_eq!(asked, expected);

    assert!(matches!(step, CheckStep::End));
    let step = e.check_missing_emotes(&mut check, CheckEvent::Ended("2.0".to_string()));
    assert!(matches!(step, CheckStep::Done));
    assert!(!e.checking_urls);
    assert_eq!(
        e.status_message,
        "found 41 good, 4 missing/404 emotes in 2.0s. press f5 to remove missing ones."
    );
    let mut rows: Vec<usize> = e.missing_emotes.iter().cloned().collect();
    rows.sort();
    assert_eq!(rows, [10, 20, 30, 40]);
    assert_eq!(e.lines.len(), 47);
    assert!(!e.modified);
}

#[test]
fn a_check_may_find_everything() {
    let mut e = editor(vec!["[\"http://a\"]".to_string()]);
    let mut check = UrlCheck::new();
    e.check_missing_emotes(&mut check, CheckEvent::Wanted);
    e.check_missing_emotes(&mut check, CheckEvent::Client(Ok(())));
    e.check_missing_emotes(&mut check, CheckEvent::Tried(Err("down".to_string())));
    assert_eq!(e.status_message, "test failed: down");
    e.check_missing_emotes(
        &mut check,
        CheckEvent::Asked(vec![false], "0.1".to_string()),
    );
    e.check_missing_emotes(&mut check, CheckEvent::Ended("0.2".to_string()));
    assert_eq!(e.status_message, "all 1 emotes are real! (0.2s)");
    assert_eq!(check.good, 1);
}

#[test]
fn a_check_of_nothing_is_over_at_once() {
    let mut e = editor(vec!["[]".to_string()]);
    let mut check = UrlCheck::new();
    e.check_missing_emotes(&mut check, CheckEvent::Wanted);
    let step = e.check_missing_emotes(&mut check, CheckEvent::Client(Ok(())));
    assert!(matches!(step, CheckStep::Done));
    assert!(!e.checking_urls);
    assert_eq!(e.check_progress, (0, 0));
    assert_eq!(e.status_message, "no urls found to check");
}

#[test]
fn a_check_needs_a_client() {
    let mut e = editor(vec!["[\"http://a\"]".to_string()]);
    let mut check = UrlCheck::new();
    e.check_missing_emotes(&mut check, CheckEvent::Wanted);
    let step = e.check_missing_emotes(&mut check, CheckEvent::Client(Err("tls".to_string())));
    match step {
        CheckStep::Failed(error) => assert_eq!(error, "failed to create client: tls"),
        step => panic!("{:?}", step),
    }
    assert!(e.checking_urls);
}
