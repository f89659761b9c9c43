//! Asking for every address of a list whether it is still there.

use vstd::prelude::*;
use vstd::string::StringExecFns;

use crate::editor::Moaremotes;
use crate::http::{
    canonical_reason, is_success, reason_of, show_test, success, test_text, METHOD_NOT_ALLOWED,
};
use crate::model::EditorView;
use crate::text::{chars_of, decimal, push_decimal, string_of, texts};
use crate::url::{extract_url, url_of};

verus! {

broadcast use vstd::std_specs::hash::group_hash_axioms;

/// The number of addresses that are asked for together.
pub const CHUNK_SIZE: usize = 20;

/// A check under way.
#[derive(Debug)]
pub struct UrlCheck {
    /// The rows that hold an address, and the addresses.
    pub targets: Vec<(usize, String)>,
    /// How many of the targets have been asked for, from the front.
    pub completed: usize,
    /// How many of these are still there.
    pub good: usize,
}

/// A check under way, as a mathematical value.
#[verifier::ext_equal]
pub struct CheckView {
    pub targets: Seq<(usize, Seq<char>)>,
    pub completed: int,
    pub good: int,
}

/// What was found out about one address.
#[derive(Debug)]
pub struct Probe {
    pub missing: bool,
    pub info: String,
}

/// What to do once a HEAD request is answered.
#[derive(Debug)]
pub enum HeadVerdict {
    Finished(Probe),
    TryGet,
}

/// What has happened outside of the editor while a check is under way.
#[derive(Debug)]
pub enum CheckEvent {
    /// A check is wanted.
    Wanted,
    /// There is a client to ask with, or why there is none.
    Client(Result<(), String>),
    /// The first address has been tried: the status of the answer, or why there was none.
    Tried(Result<u16, String>),
    /// The next targets have been asked for: which are missing, and the seconds since the start.
    Asked(Vec<bool>, String),
    /// There is nothing left to ask for: the seconds since the start.
    Ended(String),
}

/// What is to be done next, outside of the editor, for a check.
#[derive(Debug)]
pub enum CheckStep {
    /// Make a client.
    MakeClient,
    /// Try this address.
    Try(String),
    /// Ask for these targets.
    Ask(Vec<(usize, String)>),
    /// See how long it took.
    End,
    /// Nothing: the check is over.
    Done,
    /// Nothing: the check cannot be made, and this is why.
    Failed(String),
}

/// What is to be done next, as a mathematical value.
#[verifier::ext_equal]
pub enum CheckStepView {
    MakeClient,
    Try(Seq<char>),
    Ask(Seq<(usize, Seq<char>)>),
    End,
    Done,
    Failed(Seq<char>),
}

impl View for CheckStep {
    type V = CheckStepView;

    open spec fn view(&self) -> CheckStepView {
        match *self {
            CheckStep::MakeClient => CheckStepView::MakeClient,
            CheckStep::Try(url) => CheckStepView::Try(url@),
            CheckStep::Ask(chunk) => CheckStepView::Ask(target_texts(chunk@)),
            CheckStep::End => CheckStepView::End,
            CheckStep::Done => CheckStepView::Done,
            CheckStep::Failed(error) => CheckStepView::Failed(error@),
        }
    }
}

/// The rows and addresses of a list of targets.
pub open spec fn target_texts(targets: Seq<(usize, String)>) -> Seq<(usize, Seq<char>)> {
    Seq::new(targets.len(), |i: int| (targets[i].0, targets[i].1@))
}

impl View for UrlCheck {
    type V = CheckView;

    open spec fn view(&self) -> CheckView {
        CheckView {
            targets: target_texts(self.targets@),
            completed: self.completed as int,
            good: self.good as int,
        }
    }
}

/// The rows that hold an address, with the address, from the top down.
pub open spec fn url_rows(lines: Seq<Seq<char>>) -> Seq<(usize, Seq<char>)>
    decreases lines.len(),
{
    if lines.len() == 0 {
        seq![]
    } else {
        match url_of(lines.last()) {
            Some(url) => url_rows(lines.drop_last()).push(((lines.len() - 1) as usize, url)),
            None => url_rows(lines.drop_last()),
        }
    }
}

/// How many of the flags are down.
pub open spec fn count_good(missing: Seq<bool>) -> int
    decreases missing.len(),
{
    if missing.len() == 0 {
        0
    } else if missing.last() {
        count_good(missing.drop_last())
    } else {
        count_good(missing.drop_last()) + 1
    }
}

impl CheckView {
    /// Whether the counts fit the targets.
    pub open spec fn valid(self) -> bool {
        0 <= self.good <= self.completed <= self.targets.len()
    }

    /// How many targets there are.
    pub open spec fn total(self) -> int {
        self.targets.len() as int
    }

    /// Where the next chunk ends.
    pub open spec fn chunk_end(self) -> int {
        if self.completed + CHUNK_SIZE < self.total() {
            self.completed + CHUNK_SIZE
        } else {
            self.total()
        }
    }

    /// The targets to ask for next.
    pub open spec fn next_chunk(self) -> Seq<(usize, Seq<char>)> {
        self.targets.subrange(self.completed, self.chunk_end())
    }

    /// What is to be done next: ask on, or end.
    pub open spec fn next_step(self) -> CheckStepView {
        if self.completed < self.total() {
            CheckStepView::Ask(self.next_chunk())
        } else {
            CheckStepView::End
        }
    }

    /// The rows of the next targets whose flags say that they are missing.
    pub open spec fn flagged(self, missing: Seq<bool>) -> Set<usize> {
        Set::new(
            |row: usize|
                exists|k: int|
                    0 <= k < missing.len() && missing[k] && #[trigger] self.targets[self.completed
                        + k].0 == row,
        )
    }

    /// The check with the next targets done.
    pub open spec fn record(self, missing: Seq<bool>) -> CheckView {
        CheckView {
            completed: self.completed + missing.len(),
            good: self.good + count_good(missing),
            ..self
        }
    }

    /// How far the check is, in words.
    pub open spec fn progress_text(self, missing: int, elapsed: Seq<char>) -> Seq<char> {
        "checking urls... "@ + decimal(self.completed) + "/"@ + decimal(self.total()) + " ("@
            + decimal(self.good) + " good, "@ + decimal(missing) + " missing, "@ + elapsed + "s)"@
    }

    /// What the check found, in words.
    pub open spec fn result_text(self, missing: int, elapsed: Seq<char>) -> Seq<char> {
        if missing == 0 {
            "all "@ + decimal(self.total()) + " emotes are real! ("@ + elapsed + "s)"@
        } else {
            "found "@ + decimal(self.good) + " good, "@ + decimal(missing)
                + " missing/404 emotes in "@ + elapsed + "s. press f5 to remove missing ones."@
        }
    }
}

impl EditorView {
    /// A check has begun, and nothing is known to be missing.
    pub open spec fn check_started(self) -> EditorView {
        EditorView { checking_urls: true, missing_emotes: set![], ..self }
    }

    /// The addresses are known. Where there is none, the check is over.
    pub open spec fn urls_collected(self) -> EditorView {
        let total = url_rows(self.document.lines).len() as int;
        let counted = EditorView { check_progress: (0, total), ..self };
        if total == 0 {
            EditorView { checking_urls: false, ..counted }.says("no urls found to check"@)
        } else {
            counted
        }
    }

    /// The next targets of `check` are done.
    pub open spec fn chunk_done(
        self,
        check: CheckView,
        missing: Seq<bool>,
        elapsed: Seq<char>,
    ) -> EditorView {
        let gone = self.missing_emotes.union(check.flagged(missing));
        let recorded = check.record(missing);
        EditorView {
            missing_emotes: gone,
            check_progress: (recorded.completed, recorded.total()),
            ..self
        }.says(recorded.progress_text(gone.len() as int, elapsed))
    }

    /// The first address of `check` is being tried.
    pub open spec fn test_started(self, check: CheckView) -> EditorView {
        self.says("testing connection to "@ + check.targets[0].1 + "..."@)
    }

    /// The first address has been tried. `reason` is the phrase for the status of the answer.
    pub open spec fn test_answered(
        self,
        reply: Result<u16, String>,
        reason: Option<Seq<char>>,
    ) -> EditorView {
        self.says(
            match reply {
                Ok(code) => test_text(code, reason),
                Err(error) => "test failed: "@ + error@,
            },
        )
    }

    /// What an event makes of the editor and of a check, and what is to be done next.
    pub open spec fn check_step(self, check: CheckView, event: CheckEvent) -> (
        EditorView,
        CheckView,
        CheckStepView,
    ) {
        match event {
            CheckEvent::Wanted => (self.check_started(), check, CheckStepView::MakeClient),
            CheckEvent::Client(Ok(_)) => {
                let collected = self.urls_collected();
                let fresh = CheckView {
                    targets: url_rows(self.document.lines),
                    completed: 0,
                    good: 0,
                };
                if fresh.total() == 0 {
                    (collected, fresh, CheckStepView::Done)
                } else {
                    (
                        collected.test_started(fresh),
                        fresh,
                        CheckStepView::Try(fresh.targets[0].1),
                    )
                }
            },
            CheckEvent::Client(Err(error)) => (
                self,
                check,
                CheckStepView::Failed("failed to create client: "@ + error@),
            ),
            CheckEvent::Tried(reply) => (
                self.test_answered(
                    reply,
                    match reply {
                        Ok(code) => canonical_reason(code),
                        Err(_) => None,
                    },
                ),
                check,
                check.next_step(),
            ),
            CheckEvent::Asked(missing, elapsed) => (
                self.chunk_done(check, missing@, elapsed@),
                check.record(missing@),
                check.record(missing@).next_step(),
            ),
            CheckEvent::Ended(elapsed) => (
                self.check_finished(check, elapsed@),
                check,
                CheckStepView::Done,
            ),
        }
    }

    /// The check is over.
    pub open spec fn check_finished(self, check: CheckView, elapsed: Seq<char>) -> EditorView {
        EditorView { checking_urls: false, ..self }.says(
            check.result_text(self.missing_emotes.len() as int, elapsed),
        )
    }
}

/// What the answer to a HEAD request means. An address that takes no HEAD requests is asked
/// again by GET. An error counts as missing.
pub open spec fn head_verdict(head: Result<u16, String>) -> Option<(bool, Seq<char>)> {
    match head {
        Ok(code) => if success(code) {
            Some((false, decimal(code as int)))
        } else if code == METHOD_NOT_ALLOWED {
            None
        } else {
            Some((true, decimal(code as int)))
        },
        Err(error) => Some(
            (
                true,
                "ERROR: "@ + (if error@.len() > 20 {
                    error@.take(20)
                } else {
                    error@
                }),
            ),
        ),
    }
}

/// What the answer to a GET request means, after `head` for HEAD.
pub open spec fn get_verdict(head: u16, get: Option<u16>) -> (bool, Seq<char>) {
    match get {
        Some(code) => (
            !success(code),
            "HEAD:"@ + decimal(head as int) + ", GET:"@ + decimal(code as int),
        ),
        None => (true, "HEAD:"@ + decimal(head as int) + ", GET:FAIL"@),
    }
}

/// What the answer to a HEAD request means.
pub fn judge_head(head: Result<u16, String>) -> (verdict: HeadVerdict)
    ensures
        match verdict {
            HeadVerdict::Finished(probe) => head_verdict(head) == Some((probe.missing, probe.info@)),
            HeadVerdict::TryGet => head_verdict(head) is None,
        },
{
    match head {
        Ok(code) => {
            let mut info = String::new();
            push_decimal(&mut info, code as usize);
            assert(info@ =~= decimal(code as int));
            if is_success(code) {
                HeadVerdict::Finished(Probe { missing: false, info })
            } else if code == METHOD_NOT_ALLOWED {
                HeadVerdict::TryGet
            } else {
                HeadVerdict::Finished(Probe { missing: true, info })
            }
        },
        Err(error) => {
            let chars = chars_of(error.as_str());
            let mut info = "ERROR: ".to_owned();
            if chars.len() > 20 {
                let start = string_of(&chars, 0, 20);
                assert(start@ =~= error@.take(20));
                info.append(start.as_str());
            } else {
                info.append(error.as_str());
            }
            HeadVerdict::Finished(Probe { missing: true, info })
        },
    }
}

/// What the answer to a GET request means, after `head` for HEAD; `None` where there was no
/// answer.
pub fn judge_get(head: u16, get: Option<u16>) -> (probe: Probe)
    ensures
        (probe.missing, probe.info@) == get_verdict(head, get),
{
    let mut info = "HEAD:".to_owned();
    push_decimal(&mut info, head as usize);
    match get {
        Some(code) => {
            info.append(", GET:");
            push_decimal(&mut info, code as usize);
            Probe { missing: !is_success(code), info }
        },
        None => {
            info.append(", GET:FAIL");
            Probe { missing: true, info }
        },
    }
}

/// What to print of a probe: the first few rows only.
pub fn debug_line(row: usize, url: &str, info: &str) -> (line: Option<String>)
    ensures
        match line {
            Some(text) => row < 5 && text@ == "debug: URL "@ + url@ + " -> "@ + info@,
            None => row >= 5,
        },
{
    if row < 5 {
        let mut text = "debug: URL ".to_owned();
        text.append(url);
        text.append(" -> ");
        text.append(info);
        Some(text)
    } else {
        None
    }
}

/// The rows that hold an address, with the address, from the top down.
pub fn collect_targets(lines: &Vec<String>) -> (targets: Vec<(usize, String)>)
    ensures
        target_texts(targets@) == url_rows(texts(lines@)),
{
    let mut targets: Vec<(usize, String)> = Vec::new();
    let ghost all = texts(lines@);
    let mut i: usize = 0;
    assert(target_texts(targets@) =~= url_rows(all.take(0)));
    while i < lines.len()
        invariant
            i <= lines.len(),
            all == texts(lines@),
            target_texts(targets@) == url_rows(all.take(i as int)),
        decreases lines.len() - i,
    {
        assert(all.take(i + 1).drop_last() =~= all.take(i as int));
        assert(all.take(i + 1).last() == lines@[i as int]@);
        match extract_url(lines[i].as_str()) {
            Some(url) => {
                let ghost old_targets = targets@;
                targets.push((i, url));
                assert(target_texts(targets@) =~= target_texts(old_targets).push((i, url@)));
            },
            None => {},
        }
        i += 1;
    }
    assert(all.take(all.len() as int) =~= all);
    targets
}

impl UrlCheck {
    /// A check of nothing, to begin with.
    pub fn new() -> (check: UrlCheck)
        ensures
            check@ == (CheckView { targets: seq![], completed: 0, good: 0 }),
    {
        let check = UrlCheck { targets: Vec::new(), completed: 0, good: 0 };
        assert(check@.targets =~= seq![]);
        check
    }

    /// The targets to ask for next.
    fn next_chunk(&self) -> (chunk: Vec<(usize, String)>)
        requires
            self@.valid(),
        ensures
            target_texts(chunk@) == self@.next_chunk(),
    {
        let mut chunk: Vec<(usize, String)> = Vec::new();
        let mut i: usize = self.completed;
        assert(target_texts(chunk@) =~= self@.targets.subrange(i as int, i as int));
        while i < self.targets.len() && i - self.completed < CHUNK_SIZE
            invariant
                self@.valid(),
                self.completed <= i <= self.targets.len(),
                i - self.completed <= CHUNK_SIZE,
                target_texts(chunk@) == self@.targets.subrange(self@.completed, i as int),
            decreases self.targets.len() - i,
        {
            let ghost old_chunk = chunk@;
            let url = self.targets[i].1.clone();
            chunk.push((self.targets[i].0, url));
            assert(target_texts(chunk@) =~= target_texts(old_chunk).push(self@.targets[i as int]));
            assert(self@.targets.subrange(self@.completed, i + 1) =~= self@.targets.subrange(
                self@.completed,
                i as int,
            ).push(self@.targets[i as int]));
            i += 1;
        }
        chunk
    }

    /// What is to be done next: ask on, or end.
    fn next_step(&self) -> (step: CheckStep)
        requires
            self@.valid(),
        ensures
            step@ == self@.next_step(),
    {
        assert(self@.total() == self.targets.len());
        if self.completed < self.targets.len() {
            CheckStep::Ask(self.next_chunk())
        } else {
            CheckStep::End
        }
    }
}

impl Moaremotes {
    /// Takes note of an event while a check is under way, and says what is to be done next.
    pub fn check_missing_emotes(&mut self, check: &mut UrlCheck, event: CheckEvent) -> (step:
        CheckStep)
        requires
            event is Tried || event is Asked ==> old(check)@.valid(),
            event matches CheckEvent::Asked(missing, _) ==> old(check)@.completed + missing.len()
                <= old(check)@.total(),
        ensures
            (final(self)@, final(check)@, step@) == old(self)@.check_step(old(check)@, event),
    {
        match event {
            CheckEvent::Wanted => {
                self.start_check();
                CheckStep::MakeClient
            },
            CheckEvent::Client(Ok(_)) => {
                *check = self.collect_urls();
                assert(check@.total() == check.targets.len());
                if check.targets.len() == 0 {
                    CheckStep::Done
                } else {
                    self.test_started(check);
                    CheckStep::Try(check.targets[0].1.clone())
                }
            },
            CheckEvent::Client(Err(error)) => {
                let mut message = "failed to create client: ".to_owned();
                message.append(error.as_str());
                CheckStep::Failed(message)
            },
            CheckEvent::Tried(reply) => {
                self.test_answered(reply);
                check.next_step()
            },
            CheckEvent::Asked(missing, elapsed) => {
                self.chunk_done(check, &missing, elapsed.as_str());
                check.next_step()
            },
            CheckEvent::Ended(elapsed) => {
                self.finish_check(check, elapsed.as_str());
                CheckStep::Done
            },
        }
    }

    /// Begins a check.
    fn start_check(&mut self)
        ensures
            final(self)@ == old(self)@.check_started(),
    {
        self.checking_urls = true;
        self.missing_emotes.clear();
    }

    /// Collects the addresses to ask for.
    fn collect_urls(&mut self) -> (check: UrlCheck)
        ensures
            final(self)@ == old(self)@.urls_collected(),
            check@ == (CheckView {
                targets: url_rows(old(self)@.document.lines),
                completed: 0,
                good: 0,
            }),
    {
        let targets = collect_targets(&self.lines);
        assert(target_texts(targets@).len() == targets@.len());
        let total: usize = targets.len();
        self.check_progress = (0, total);
        if total == 0 {
            self.checking_urls = false;
            self.status_message = "no urls found to check".to_owned();
        }
        UrlCheck { targets, completed: 0, good: 0 }
    }

    /// Says that the first address is being tried.
    fn test_started(&mut self, check: &UrlCheck)
        requires
            check@.total() > 0,
        ensures
            final(self)@ == old(self)@.test_started(check@),
    {
        let mut message = "testing connection to ".to_owned();
        message.append(check.targets[0].1.as_str());
        message.append("...");
        self.status_message = message;
    }

    /// Says what became of trying the first address.
    fn test_answered(&mut self, reply: Result<u16, String>)
        ensures
            final(self)@ == old(self)@.test_answered(
                reply,
                match reply {
                    Ok(code) => canonical_reason(code),
                    Err(_) => None,
                },
            ),
    {
        match reply {
            Ok(code) => {
                let reason = reason_of(code);
                self.status_message = show_test(code, &reason);
            },
            Err(error) => {
                let mut message = "test failed: ".to_owned();
                message.append(error.as_str());
                self.status_message = message;
            },
        }
    }

    /// Takes note of what was found out about the next targets of `check`.
    fn chunk_done(&mut self, check: &mut UrlCheck, missing: &Vec<bool>, elapsed: &str)
        requires
            old(check)@.valid(),
            old(check)@.completed + missing.len() <= old(check)@.total(),
        ensures
            final(check)@ == old(check)@.record(missing@),
            final(check)@.valid(),
            final(self)@ == old(self)@.chunk_done(old(check)@, missing@, elapsed@),
    {
        let ghost start = check@;
        let ghost known = self.missing_emotes@;
        let mut k: usize = 0;
        assert(missing@.take(0) =~= seq![]);
        assert(self.missing_emotes@ =~= known.union(start.flagged(missing@.take(0))));
        while k < missing.len()
            invariant
                k <= missing.len(),
                start.valid(),
                start.completed + missing.len() <= start.total(),
                check.targets == old(check).targets,
                start == old(check)@,
                start.total() == check.targets.len(),
                check.completed == start.completed + k,
                check.good == start.good + count_good(missing@.take(k as int)),
                0 <= count_good(missing@.take(k as int)) <= k,
                self.missing_emotes@ == known.union(start.flagged(missing@.take(k as int))),
                self@ == (EditorView { missing_emotes: self.missing_emotes@, ..old(self)@ }),
            decreases missing.len() - k,
        {
            let ghost done = missing@.take(k as int);
            let ghost next = missing@.take(k + 1);
            assert(next.drop_last() =~= done);
            let row: usize = check.targets[check.completed].0;
            assert(start.targets[start.completed + k].0 == row);
            if missing[k] {
                self.missing_emotes.insert(row);
                assert forall|r: usize| #[trigger]
                    start.flagged(next).contains(r) <==> start.flagged(done).contains(r) || r
                        == row by {
                    if start.flagged(done).contains(r) {
                        let j = choose|j: int|
                            0 <= j < done.len() && done[j] && #[trigger] start.targets[start.completed
                                + j].0 == r;
                        assert(next[j] && start.targets[start.completed + j].0 == r);
                    }
                    if r == row {
                        assert(next[k as int] && start.targets[start.completed + k].0 == r);
                    }
                    if start.flagged(next).contains(r) && r != row {
                        let j = choose|j: int|
                            0 <= j < next.len() && next[j] && #[trigger] start.targets[start.completed
                                + j].0 == r;
                        assert(done[j] && start.targets[start.completed + j].0 == r);
                    }
                }
            } else {
                check.good += 1;
                assert forall|r: usize| #[trigger]
                    start.flagged(next).contains(r) <==> start.flagged(done).contains(r) by {
                    if start.flagged(done).contains(r) {
                        let j = choose|j: int|
                            0 <= j < done.len() && done[j] && #[trigger] start.targets[start.completed
                                + j].0 == r;
                        assert(next[j] && start.targets[start.completed + j].0 == r);
                    }
                    if start.flagged(next).contains(r) {
                        let j = choose|j: int|
                            0 <= j < next.len() && next[j] && #[trigger] start.targets[start.completed
                                + j].0 == r;
                        assert(done[j] && start.targets[start.completed + j].0 == r);
                    }
                }
            }
            assert(self.missing_emotes@ =~= known.union(start.flagged(next)));
            check.completed += 1;
            k += 1;
        }
        assert(missing@.take(missing@.len() as int) =~= missing@);
        let total: usize = check.targets.len();
        self.check_progress = (check.completed, total);
        let mut message = "checking urls... ".to_owned();
        push_decimal(&mut message, check.completed);
        message.append("/");
        push_decimal(&mut message, total);
        message.append(" (");
        push_decimal(&mut message, check.good);
        message.append(" good, ");
        push_decimal(&mut message, self.missing_emotes.len());
        message.append(" missing, ");
        message.append(elapsed);
        message.append("s)");
        self.status_message = message;
    }

    /// Ends a check.
    fn finish_check(&mut self, check: &UrlCheck, elapsed: &str)
        ensures
            final(self)@ == old(self)@.check_finished(check@, elapsed@),
    {
        let missing: usize = self.missing_emotes.len();
        self.checking_urls = false;
        assert(check@.total() == check.targets.len());
        if missing == 0 {
            let mut message = "all ".to_owned();
            push_decimal(&mut message, check.targets.len());
            message.append(" emotes are real! (");
            message.append(elapsed);
            message.append("s)");
            self.status_message = message;
        } else {
            let mut message = "found ".to_owned();
            push_decimal(&mut message, check.good);
            message.append(" good, ");
            push_decimal(&mut message, missing);
            message.append(" missing/404 emotes in ");
            message.append(elapsed);
            message.append("s. press f5 to remove missing ones.");
            self.status_message = message;
        }
    }
}

} // verus!
