//! DuckDuckGo: requests, cooldown and the course of a search.
//!
//! A search asks for a result page first. Where that fails or has few results, the Instant Answer
//! API supplements it. After a request was blocked, only the Instant Answer API is asked until a
//! cooldown is over.

use vstd::prelude::*;
use vstd::utf8::encode_utf8;

use crate::text::same_text;
use crate::web_search::duckduckgo::{
    blocked_page, is_ddg_blocked, page_results, parse_ddg_results,
};
use crate::web_search::instant_answer::{is_success, success_status};
use crate::web_search::percent::{encode, percent_encoded};
use crate::web_search::result::{result_texts, ResultTexts, SearchResult};

verus! {

/// How long requests for result pages rest after one was blocked, in seconds.
pub const DDG_RATE_LIMIT_COOLDOWN_SECS: u64 = 30;

/// The HTTP status with which a rate limit is answered.
pub const RATE_LIMIT_STATUS: u16 = 202;

/// A result page with fewer results than this is supplemented.
pub const FEW_RESULTS: usize = 3;

// ── Cooldown ─────────────────────────────────────────────────────

/// Whether the cooldown is active at the time `now`, where it lasts until `until`. Zero stands for
/// no cooldown. Times are seconds since the epoch.
pub open spec fn rate_limited(until: u64, now: u64) -> bool {
    until != 0 && now < until
}

/// Until when the cooldown lasts that begins at the time `now`.
pub open spec fn cooldown_end(now: u64) -> int {
    now + DDG_RATE_LIMIT_COOLDOWN_SECS
}

/// Whether the cooldown is active at the time `now`, where it lasts until `until`. Zero stands for
/// no cooldown.
pub fn ddg_is_rate_limited(until: u64, now: u64) -> (r: bool)
    ensures
        r == rate_limited(until, now),
{
    if until == 0 {
        return false;
    }
    now < until
}

/// Until when the cooldown lasts that begins at the time `now`.
pub fn ddg_mark_rate_limited(now: u64) -> (until: u64)
    requires
        cooldown_end(now) <= u64::MAX,
    ensures
        until == cooldown_end(now),
{
    now + DDG_RATE_LIMIT_COOLDOWN_SECS
}

// ── Requests ─────────────────────────────────────────────────────

/// The parameter that filters result pages by time. Empty where nothing is filtered.
pub open spec fn freshness_param(freshness: Option<Seq<char>>) -> Seq<char> {
    match freshness {
        Some(f) => if f == "day"@ {
            "d"@
        } else if f == "week"@ {
            "w"@
        } else if f == "month"@ {
            "m"@
        } else {
            ""@
        },
        None => ""@,
    }
}

/// The parameter that filters result pages by time: `d` for a day, `w` for a week, `m` for a
/// month.
pub fn ddg_freshness_param(f: Option<&str>) -> (r: &'static str)
    ensures
        r@ == freshness_param(
            match f {
                Some(s) => Some(s@),
                None => None,
            },
        ),
{
    match f {
        Some(s) => if same_text(s, "day") {
            "d"
        } else if same_text(s, "week") {
            "w"
        } else if same_text(s, "month") {
            "m"
        } else {
            ""
        },
        None => "",
    }
}

/// The address of the result page for a query.
pub open spec fn page_address(query: Seq<char>, freshness: Option<Seq<char>>) -> Seq<char> {
    let address = "https://html.duckduckgo.com/html/?q="@ + percent_encoded(encode_utf8(query));
    let df = freshness_param(freshness);
    if df.len() == 0 {
        address
    } else {
        address + "&df="@ + df
    }
}

/// The address of the result page for a query.
pub fn ddg_html_url(query: &str, freshness: Option<&str>) -> (r: String)
    ensures
        r@ == page_address(
            query@,
            match freshness {
                Some(s) => Some(s@),
                None => None,
            },
        ),
{
    let df = ddg_freshness_param(freshness);
    let mut url = "https://html.duckduckgo.com/html/?q=".to_owned();
    url.append(encode(query).as_str());
    proof {
        reveal_strlit("");
        reveal_strlit("d");
        reveal_strlit("w");
        reveal_strlit("m");
    }
    if !same_text(df, "") {
        url.append("&df=");
        url.append(df);
    }
    url
}

/// The names and values of the headers with which a browser asks for a page.
pub open spec fn browser_headers() -> Seq<(Seq<char>, Seq<char>)> {
    seq![
        ("Accept"@, "text/html,application/xhtml+xml,application/xml;q=0.9,*/*;q=0.8"@),
        ("Accept-Language"@, "en-US,en;q=0.9,zh-CN;q=0.8,zh;q=0.7"@),
        ("Referer"@, "https://duckduckgo.com/"@),
        ("Sec-Fetch-Dest"@, "document"@),
        ("Sec-Fetch-Mode"@, "navigate"@),
        ("Sec-Fetch-Site"@, "same-origin"@),
        ("Sec-Fetch-User"@, "?1"@),
    ]
}

/// The headers of every request, as names and values.
pub fn ddg_headers() -> (r: Vec<(&'static str, &'static str)>)
    ensures
        r.len() == browser_headers().len(),
        forall|i: int|
            0 <= i < r.len() ==> (#[trigger] r@[i]).0@ == browser_headers()[i].0 && r@[i].1@
                == browser_headers()[i].1,
{
    let mut headers: Vec<(&'static str, &'static str)> = Vec::new();
    headers.push(("Accept", "text/html,application/xhtml+xml,application/xml;q=0.9,*/*;q=0.8"));
    headers.push(("Accept-Language", "en-US,en;q=0.9,zh-CN;q=0.8,zh;q=0.7"));
    headers.push(("Referer", "https://duckduckgo.com/"));
    headers.push(("Sec-Fetch-Dest", "document"));
    headers.push(("Sec-Fetch-Mode", "navigate"));
    headers.push(("Sec-Fetch-Site", "same-origin"));
    headers.push(("Sec-Fetch-User", "?1"));
    headers
}

// ── Result pages ─────────────────────────────────────────────────

/// What came of the request for a result page.
pub struct PageOutcome {
    /// Whether the cooldown begins.
    pub rate_limited: bool,
    /// The results, or why there are none.
    pub results: Result<Vec<SearchResult>, String>,
}

/// What the HTTP status of a reply says of it, before its body is read. `None` where the body is
/// to be read. A rate limit begins the cooldown; it and every status that means no success are
/// failures. `status_text` is the status as it is reported.
pub fn page_status_outcome(status: u16, status_text: &str) -> (r: Option<PageOutcome>)
    ensures
        match r {
            Some(outcome) => {
                &&& status == RATE_LIMIT_STATUS || !success_status(status)
                &&& outcome.rate_limited == (status == RATE_LIMIT_STATUS)
                &&& outcome.results matches Err(message) && message@ == (if status
                    == RATE_LIMIT_STATUS {
                    "DDG rate-limited (HTTP 202)"@
                } else {
                    "DuckDuckGo HTML failed with status: "@ + status_text@
                })
            },
            None => success_status(status) && status != RATE_LIMIT_STATUS,
        },
        r is None <==> 200 <= status <= 299 && status != 202,
        status == 202 <==> (r matches Some(outcome) && outcome.rate_limited),
{
    if status == RATE_LIMIT_STATUS {
        return Some(
            PageOutcome {
                rate_limited: true,
                results: Err("DDG rate-limited (HTTP 202)".to_owned()),
            },
        );
    }
    if !is_success(status) {
        let mut message = "DuckDuckGo HTML failed with status: ".to_owned();
        message.append(status_text);
        return Some(PageOutcome { rate_limited: false, results: Err(message) });
    }
    None
}

/// What the body of a reply holds: at most `count` results. A homepage in place of results begins
/// the cooldown.
pub fn page_body_outcome(html: &str, count: usize) -> (r: PageOutcome)
    ensures
        r.rate_limited == blocked_page(html@),
        match r.results {
            Ok(results) => !blocked_page(html@) && result_texts(results@) == page_results(
                html@,
                0,
                count as nat,
            ),
            Err(message) => blocked_page(html@) && message@ == "DDG blocked (anti-bot redirect)"@,
        },
{
    if is_ddg_blocked(html) {
        return PageOutcome {
            rate_limited: true,
            results: Err("DDG blocked (anti-bot redirect)".to_owned()),
        };
    }
    PageOutcome { rate_limited: false, results: Ok(parse_ddg_results(html, count)) }
}

// ── Merging ──────────────────────────────────────────────────────

/// Whether a result with that address is in the list.
pub open spec fn has_url(results: Seq<ResultTexts>, url: Seq<char>) -> bool {
    exists|i: int| 0 <= i < results.len() && (#[trigger] results[i]).url == url
}

/// The answers whose address no result of the page has.
pub open spec fn new_answers(page: Seq<ResultTexts>, answers: Seq<ResultTexts>) -> Seq<
    ResultTexts,
>
    decreases answers.len(),
{
    if answers.len() == 0 {
        Seq::empty()
    } else if has_url(page, answers.last().url) {
        new_answers(page, answers.drop_last())
    } else {
        new_answers(page, answers.drop_last()).push(answers.last())
    }
}

/// The list with only the first result of each address. Results without an address all stay.
pub open spec fn deduplicated(results: Seq<ResultTexts>) -> Seq<ResultTexts>
    decreases results.len(),
{
    if results.len() == 0 {
        Seq::empty()
    } else {
        let front = results.drop_last();
        if results.last().url.len() > 0 && has_url(front, results.last().url) {
            deduplicated(front)
        } else {
            deduplicated(front).push(results.last())
        }
    }
}

/// The first results of a list, at most `max`.
pub open spec fn first_results(results: Seq<ResultTexts>, max: nat) -> Seq<ResultTexts> {
    if results.len() <= max {
        results
    } else {
        results.take(max as int)
    }
}

fn list_has_url(results: &Vec<SearchResult>, upto: usize, url: &str) -> (r: bool)
    requires
        upto <= results.len(),
    ensures
        r == has_url(result_texts(results@).take(upto as int), url@),
{
    let ghost texts = result_texts(results@).take(upto as int);
    let mut i: usize = 0;
    while i < upto
        invariant
            i <= upto <= results.len(),
            texts == result_texts(results@).take(upto as int),
            forall|j: int| 0 <= j < i ==> (#[trigger] texts[j]).url != url@,
        decreases upto - i,
    {
        if same_text(results[i].url.as_str(), url) {
            assert(texts[i as int].url == url@);
            return true;
        }
        i += 1;
    }
    false
}

fn merge(page: Vec<SearchResult>, answers: Vec<SearchResult>) -> (r: Vec<SearchResult>)
    ensures
        result_texts(r@) == result_texts(page@) + new_answers(
            result_texts(page@),
            result_texts(answers@),
        ),
{
    let ghost old_texts = result_texts(page@);
    let ghost answer_texts = result_texts(answers@);
    let from_page = page.len();
    let mut merged = page;
    let mut i: usize = 0;
    assert(old_texts + Seq::empty() =~= old_texts);
    while i < answers.len()
        invariant
            i <= answers.len(),
            from_page <= merged.len(),
            old_texts.len() == from_page,
            answer_texts == result_texts(answers@),
            result_texts(merged@) == old_texts + new_answers(
                old_texts,
                answer_texts.take(i as int),
            ),
        decreases answers.len() - i,
    {
        let ghost before = result_texts(merged@);
        assert(before.take(from_page as int) =~= old_texts);
        assert(answer_texts.take(i + 1).drop_last() =~= answer_texts.take(i as int));
        if !list_has_url(&merged, from_page, answers[i].url.as_str()) {
            merged.push(answers[i].clone());
            assert(result_texts(merged@) =~= before.push(answer_texts[i as int]));
            assert(before.push(answer_texts[i as int]) =~= old_texts + new_answers(
                old_texts,
                answer_texts.take(i as int),
            ).push(answer_texts[i as int]));
        }
        i += 1;
    }
    assert(answer_texts.take(i as int) =~= answer_texts);
    merged
}

fn deduplicate(results: &Vec<SearchResult>) -> (r: Vec<SearchResult>)
    ensures
        result_texts(r@) == deduplicated(result_texts(results@)),
{
    let ghost texts = result_texts(results@);
    let mut kept: Vec<SearchResult> = Vec::new();
    let mut i: usize = 0;
    assert(result_texts(kept@) =~= deduplicated(texts.take(0)));
    while i < results.len()
        invariant
            i <= results.len(),
            texts == result_texts(results@),
            result_texts(kept@) == deduplicated(texts.take(i as int)),
        decreases results.len() - i,
    {
        let ghost before = result_texts(kept@);
        assert(texts.take(i + 1).drop_last() =~= texts.take(i as int));
        proof {
            reveal_strlit("");
        }
        let url = results[i].url.as_str();
        assert(url@.len() == 0 ==> url@ =~= ""@);
        if same_text(url, "") || !list_has_url(results, i, url) {
            kept.push(results[i].clone());
            assert(result_texts(kept@) =~= before.push(texts[i as int]));
        }
        i += 1;
    }
    assert(texts.take(i as int) =~= texts);
    kept
}

// ── Course of a search ───────────────────────────────────────────

/// What a search does next.
#[derive(Debug, Clone, Copy, PartialEq, Eq, Structural)]
pub enum SearchStep {
    /// Ask for the result page.
    AskPage,
    /// Ask the Instant Answer API.
    AskAnswers,
    /// The search is over.
    Finish,
}

/// A search, with the replies that came so far.
pub struct DdgSearch {
    /// Whether the cooldown was active when the search began.
    pub limited: bool,
    /// The results of the result page, or why there are none.
    pub page: Option<Result<Vec<SearchResult>, String>>,
    /// The results of the Instant Answer API.
    pub answers: Option<Vec<SearchResult>>,
}

/// The results of the page, or none where it failed.
pub open spec fn page_or_none(page: Result<Vec<SearchResult>, String>) -> Seq<ResultTexts> {
    match page {
        Ok(results) => result_texts(results@),
        Err(_) => Seq::empty(),
    }
}

/// The answers that came, or none.
pub open spec fn answers_or_none(answers: Option<Vec<SearchResult>>) -> Seq<ResultTexts> {
    match answers {
        Some(results) => result_texts(results@),
        None => Seq::empty(),
    }
}

impl DdgSearch {
    /// Whether the page that came is enough without answers.
    pub open spec fn page_suffices(self) -> bool {
        self.page matches Some(Ok(results)) && results.len() >= FEW_RESULTS
    }

    /// What the search does next.
    pub open spec fn step(self) -> SearchStep {
        if self.limited {
            if self.answers is None {
                SearchStep::AskAnswers
            } else {
                SearchStep::Finish
            }
        } else if self.page is None {
            SearchStep::AskPage
        } else if !self.page_suffices() && self.answers is None {
            SearchStep::AskAnswers
        } else {
            SearchStep::Finish
        }
    }

    /// The results before double addresses are taken out: those of the page, and where it does
    /// not suffice the answers with addresses that it lacks.
    pub open spec fn merged(self) -> Seq<ResultTexts> {
        let page = page_or_none(self.page->Some_0);
        if self.page_suffices() {
            page
        } else {
            page + new_answers(page, answers_or_none(self.answers))
        }
    }

    /// A search that begins at the time `now`, where the cooldown lasts until `until`.
    pub fn new(until: u64, now: u64) -> (r: Self)
        ensures
            r == (DdgSearch { limited: rate_limited(until, now), page: None, answers: None }),
    {
        DdgSearch { limited: ddg_is_rate_limited(until, now), page: None, answers: None }
    }

    /// What the search does next.
    pub fn next_step(&self) -> (r: SearchStep)
        ensures
            r == self.step(),
    {
        if self.limited {
            if self.answers.is_none() {
                return SearchStep::AskAnswers;
            }
            return SearchStep::Finish;
        }
        let suffices = match &self.page {
            None => return SearchStep::AskPage,
            Some(Ok(results)) => results.len() >= FEW_RESULTS,
            Some(Err(_)) => false,
        };
        if !suffices && self.answers.is_none() {
            SearchStep::AskAnswers
        } else {
            SearchStep::Finish
        }
    }

    /// What a search that is over found, at most `count` results.
    ///
    /// During the cooldown these are the answers as they came, and it fails where there are none.
    /// Else it never fails: each address occurs once, the page comes before the answers.
    pub fn finish(self, count: usize) -> (r: Result<Vec<SearchResult>, String>)
        requires
            self.step() == SearchStep::Finish,
        ensures
            match r {
                Ok(results) => if self.limited {
                    answers_or_none(self.answers).len() > 0 && result_texts(results@)
                        == answers_or_none(self.answers)
                } else {
                    result_texts(results@) == first_results(
                        deduplicated(self.merged()),
                        count as nat,
                    )
                },
                Err(message) => self.limited && answers_or_none(self.answers).len() == 0
                    && message@ == "DuckDuckGo rate-limit cooldown active"@,
            },
    {
        let ghost search = self;
        let answers = match self.answers {
            Some(answers) => answers,
            None => Vec::new(),
        };
        assert(result_texts(answers@) =~= answers_or_none(search.answers));
        if self.limited {
            if answers.len() > 0 {
                return Ok(answers);
            }
            return Err("DuckDuckGo rate-limit cooldown active".to_owned());
        }
        let page = match self.page {
            Some(Ok(results)) => results,
            _ => Vec::new(),
        };
        assert(result_texts(page@) =~= page_or_none(search.page->Some_0));
        let merged = if page.len() >= FEW_RESULTS {
            page
        } else {
            merge(page, answers)
        };
        let mut results = deduplicate(&merged);
        let ghost all = result_texts(results@);
        if results.len() > count {
            results.truncate(count);
            assert(result_texts(results@) =~= all.take(count as int));
        }
        Ok(results)
    }
}

// ── Laws ─────────────────────────────────────────────────────────

/// The cooldown that began at the time `marked` is active until its time is over, and at no time
/// where none began.
pub proof fn cooldown_lasts_its_time(marked: u64, now: u64)
    requires
        cooldown_end(marked) <= u64::MAX,
    ensures
        rate_limited(cooldown_end(marked) as u64, now) <==> now < marked
            + DDG_RATE_LIMIT_COOLDOWN_SECS,
        !rate_limited(0, now),
{
}

/// During the cooldown a search asks for no result page; outside of it, it asks for one first.
pub proof fn cooldown_decides_what_is_asked(until: u64, now: u64)
    ensures
        (DdgSearch { limited: rate_limited(until, now), page: None, answers: None }).step() == (
        if rate_limited(until, now) {
            SearchStep::AskAnswers
        } else {
            SearchStep::AskPage
        }),
{
}

/// A search asks for each thing at most once, and is over once it has both.
pub proof fn search_comes_to_an_end(search: DdgSearch)
    ensures
        search.step() == SearchStep::AskPage ==> search.page is None,
        search.step() == SearchStep::AskAnswers ==> search.answers is None,
        search.page is Some && search.answers is Some ==> search.step() == SearchStep::Finish,
{
}

proof fn lemma_deduplicated(results: Seq<ResultTexts>)
    ensures
        forall|url: Seq<char>| #[trigger]
            has_url(deduplicated(results), url) <==> has_url(results, url),
        forall|i: int, j: int|
            0 <= i < j < deduplicated(results).len() && (#[trigger] deduplicated(
                results,
            )[i]).url.len() > 0 ==> deduplicated(results)[i].url != (#[trigger] deduplicated(
                results,
            )[j]).url,
    decreases results.len(),
{
    if results.len() > 0 {
        let front = results.drop_last();
        let last = results.last();
        let kept = deduplicated(front);
        let all = deduplicated(results);
        lemma_deduplicated(front);
        assert forall|url: Seq<char>| #[trigger] has_url(all, url) <==> has_url(results, url) by {
            assert(has_url(kept, url) <==> has_url(front, url));
            if has_url(front, url) {
                let i = choose|i: int| 0 <= i < front.len() && (#[trigger] front[i]).url == url;
                assert(results[i].url == url);
            }
            if has_url(kept, url) {
                let i = choose|i: int| 0 <= i < kept.len() && (#[trigger] kept[i]).url == url;
                assert(all[i].url == url);
            }
            if has_url(results, url) {
                let i = choose|i: int| 0 <= i < results.len() && (#[trigger] results[i]).url == url;
                if i < front.len() {
                    assert(front[i].url == url);
                } else if all.len() > kept.len() {
                    assert(all[all.len() - 1].url == url);
                }
            }
            if has_url(all, url) {
                let i = choose|i: int| 0 <= i < all.len() && (#[trigger] all[i]).url == url;
                if i < kept.len() {
                    assert(kept[i].url == url);
                } else {
                    assert(results[results.len() - 1].url == url);
                }
            }
        }
        assert forall|i: int, j: int|
            0 <= i < j < all.len() && (#[trigger] all[i]).url.len() > 0 implies all[i].url != (
        #[trigger] all[j]).url by {
            if j < kept.len() {
                assert(all[i] == kept[i] && all[j] == kept[j]);
            } else {
                assert(all[i] == kept[i] && all[j] == last);
                if kept[i].url == last.url {
                    assert(has_url(kept, last.url));
                    assert(has_url(front, last.url));
                }
            }
        }
    }
}

/// What a search outside the cooldown finds names no address twice.
pub proof fn found_addresses_are_distinct(results: Seq<ResultTexts>, max: nat, i: int, j: int)
    requires
        0 <= i < j < first_results(deduplicated(results), max).len(),
        first_results(deduplicated(results), max)[i].url.len() > 0,
    ensures
        first_results(deduplicated(results), max)[i].url != first_results(
            deduplicated(results),
            max,
        )[j].url,
{
    lemma_deduplicated(results);
    let all = deduplicated(results);
    assert(first_results(all, max)[i] == all[i] && first_results(all, max)[j] == all[j]);
}

/// Taking out double addresses loses no address.
pub proof fn no_address_is_lost(results: Seq<ResultTexts>, url: Seq<char>)
    ensures
        has_url(deduplicated(results), url) <==> has_url(results, url),
{
    lemma_deduplicated(results);
}

/// Results with distinct addresses come out as they are.
pub proof fn distinct_addresses_are_kept(results: Seq<ResultTexts>)
    requires
        forall|i: int, j: int|
            0 <= i < j < results.len() ==> (#[trigger] results[i]).url != (
            #[trigger] results[j]).url,
    ensures
        deduplicated(results) == results,
    decreases results.len(),
{
    if results.len() > 0 {
        let front = results.drop_last();
        assert forall|i: int, j: int| 0 <= i < j < front.len() implies (#[trigger] front[i]).url
            != (#[trigger] front[j]).url by {
            assert(front[i] == results[i] && front[j] == results[j]);
        }
        distinct_addresses_are_kept(front);
        if has_url(front, results.last().url) {
            let i = choose|i: int|
                0 <= i < front.len() && (#[trigger] front[i]).url == results.last().url;
            assert(results[i].url == results[results.len() - 1].url);
        }
        assert(front.push(results.last()) =~= results);
    } else {
        assert(deduplicated(results) =~= results);
    }
}

/// The results of the page come first: they lead what is merged, in their order.
pub proof fn page_comes_first(search: DdgSearch)
    requires
        search.page is Some,
    ensures
        ({
            let page = page_or_none(search.page->Some_0);
            &&& page.len() <= search.merged().len()
            &&& search.merged().take(page.len() as int) == page
        }),
{
    let page = page_or_none(search.page->Some_0);
    assert(search.merged().take(page.len() as int) =~= page);
}

/// An answer is merged in exactly where no result of the page has its address.
pub proof fn answers_with_new_addresses_are_merged_in(
    page: Seq<ResultTexts>,
    answers: Seq<ResultTexts>,
    answer: ResultTexts,
)
    ensures
        new_answers(page, answers).contains(answer) <==> answers.contains(answer) && !has_url(
            page,
            answer.url,
        ),
    decreases answers.len(),
{
    if answers.len() > 0 {
        let front = answers.drop_last();
        let kept = new_answers(page, front);
        let all = new_answers(page, answers);
        answers_with_new_addresses_are_merged_in(page, front, answer);
        if answers.contains(answer) {
            let i = choose|i: int| 0 <= i < answers.len() && answers[i] == answer;
            if i < front.len() {
                assert(front[i] == answer);
            }
        }
        if front.contains(answer) {
            let i = choose|i: int| 0 <= i < front.len() && front[i] == answer;
            assert(answers[i] == answer);
        }
        if kept.contains(answer) {
            let i = choose|i: int| 0 <= i < kept.len() && kept[i] == answer;
            assert(all[i] == answer);
        }
        if all.len() > kept.len() {
            assert(all[all.len() - 1] == answers.last());
        }
        if all.contains(answer) {
            let i = choose|i: int| 0 <= i < all.len() && all[i] == answer;
            if i < kept.len() {
                assert(kept[i] == answer);
            } else {
                assert(answers[answers.len() - 1] == answer);
            }
        }
    }
}

/// Each freshness has its parameter, and nothing else has one.
pub proof fn freshness_has_its_parameter(f: Seq<char>)
    ensures
        f == "day"@ ==> freshness_param(Some(f)) == "d"@,
        f == "week"@ ==> freshness_param(Some(f)) == "w"@,
        f == "month"@ ==> freshness_param(Some(f)) == "m"@,
        f != "day"@ && f != "week"@ && f != "month"@ ==> freshness_param(Some(f)).len() == 0,
        freshness_param(None).len() == 0,
{
    reveal_strlit("day");
    reveal_strlit("week");
    reveal_strlit("month");
    reveal_strlit("");
    assert("day"@.len() == 3 && "week"@.len() == 4 && "month"@.len() == 5);
}

/// The address of a result page holds the encoded query, and the filter by time where one is asked
/// for.
pub proof fn page_address_holds_query_and_filter(query: Seq<char>, f: Seq<char>)
    ensures
        page_address(query, None) == "https://html.duckduckgo.com/html/?q="@ + percent_encoded(
            encode_utf8(query),
        ),
        f == "day"@ ==> page_address(query, Some(f)) == page_address(query, None) + "&df="@ + "d"@,
        f == "week"@ ==> page_address(query, Some(f)) == page_address(query, None) + "&df="@
            + "w"@,
        f == "month"@ ==> page_address(query, Some(f)) == page_address(query, None) + "&df="@
            + "m"@,
        f != "day"@ && f != "week"@ && f != "month"@ ==> page_address(query, Some(f))
            == page_address(query, None),
{
    reveal_strlit("day");
    reveal_strlit("week");
    reveal_strlit("month");
    reveal_strlit("");
    assert("day"@.len() == 3 && "week"@.len() == 4 && "month"@.len() == 5);
    reveal_strlit("d");
    reveal_strlit("w");
    reveal_strlit("m");
}

/// Every request carries these headers, each once, and no others.
pub proof fn requests_look_like_those_of_a_browser(i: int)
    requires
        0 <= i < browser_headers().len(),
    ensures
        browser_headers().len() == 7,
        browser_headers()[0] == ("Accept"@, "text/html,application/xhtml+xml,application/xml;q=0.9,*/*;q=0.8"@),
        browser_headers()[1] == ("Accept-Language"@, "en-US,en;q=0.9,zh-CN;q=0.8,zh;q=0.7"@),
        browser_headers()[2] == ("Referer"@, "https://duckduckgo.com/"@),
        browser_headers()[3] == ("Sec-Fetch-Dest"@, "document"@),
        browser_headers()[4] == ("Sec-Fetch-Mode"@, "navigate"@),
        browser_headers()[5] == ("Sec-Fetch-Site"@, "same-origin"@),
        browser_headers()[6] == ("Sec-Fetch-User"@, "?1"@),
{
}

/// A page with three results or more suffices by itself; the results of a shorter one, or of none,
/// are followed by the answers.
pub proof fn short_pages_are_supplemented(search: DdgSearch)
    requires
        search.page is Some,
    ensures
        ({
            let page = page_or_none(search.page->Some_0);
            &&& search.page->Some_0 is Ok && page.len() >= 3 ==> search.merged() == page
            &&& search.page->Some_0 is Err || page.len() < 3 ==> search.merged() == page
                + new_answers(page, answers_or_none(search.answers))
        }),
{
}

/// What a search does next, from what it has: during the cooldown it asks for answers only; else it
/// asks for the page first, and for answers where the page failed or has fewer than three results.
pub proof fn searches_go_their_course(search: DdgSearch)
    ensures
        search.limited && search.answers is None ==> search.step() == SearchStep::AskAnswers,
        search.limited && search.answers is Some ==> search.step() == SearchStep::Finish,
        !search.limited && search.page is None ==> search.step() == SearchStep::AskPage,
        !search.limited && (search.page matches Some(Ok(results)) && results@.len() >= 3)
            ==> search.step() == SearchStep::Finish,
        !search.limited && (search.page matches Some(Ok(results)) && results@.len() < 3)
            && search.answers is None ==> search.step() == SearchStep::AskAnswers,
        !search.limited && (search.page matches Some(Err(_))) && search.answers is None
            ==> search.step() == SearchStep::AskAnswers,
        search.page is Some && search.answers is Some ==> search.step() == SearchStep::Finish,
{
}

/// What came is what counts: the results of a page and the answers, text for text; a failed page
/// and missing answers count as none.
pub proof fn what_came_counts(
    page: Result<Vec<SearchResult>, String>,
    answers: Option<Vec<SearchResult>>,
    i: int,
)
    ensures
        page matches Ok(results) ==> page_or_none(page).len() == results@.len() && (0 <= i
            < results@.len() ==> page_or_none(page)[i].title == results@[i].title@
            && page_or_none(page)[i].url == results@[i].url@ && page_or_none(page)[i].snippet
            == results@[i].snippet@ && page_or_none(page)[i].source == results@[i].source@),
        page is Err ==> page_or_none(page).len() == 0,
        answers matches Some(results) ==> answers_or_none(answers).len() == results@.len() && (0
            <= i < results@.len() ==> answers_or_none(answers)[i] == results@[i]@),
        answers is None ==> answers_or_none(answers).len() == 0,
{
}

/// An address is in a list exactly where one of the results has it.
pub proof fn addresses_are_those_of_the_results(results: Seq<ResultTexts>, url: Seq<char>)
    ensures
        has_url(results, url) <==> exists|r: ResultTexts| #[trigger]
            results.contains(r) && r.url == url,
{
    if has_url(results, url) {
        let i = choose|i: int| 0 <= i < results.len() && (#[trigger] results[i]).url == url;
        assert(results.contains(results[i]));
    }
    if exists|r: ResultTexts| #[trigger] results.contains(r) && r.url == url {
        let r = choose|r: ResultTexts| #[trigger] results.contains(r) && r.url == url;
        let i = choose|i: int| 0 <= i < results.len() && results[i] == r;
        assert(results[i].url == url);
    }
}

/// The answers that are merged in are, in their order, all those whose address the page lacks.
pub proof fn merged_answers_keep_their_order(page: Seq<ResultTexts>, answers: Seq<ResultTexts>)
    ensures
        new_answers(page, answers) == answers.filter(|a: ResultTexts| !has_url(page, a.url)),
    decreases answers.len(),
{
    reveal(Seq::filter);
    if answers.len() > 0 {
        merged_answers_keep_their_order(page, answers.drop_last());
    }
}

/// Of results with the same address the first stays: a further result is taken out exactly where
/// it has an address and one before it has the same. The others stay as they are, in their order.
pub proof fn first_of_an_address_stays(results: Seq<ResultTexts>, next: ResultTexts)
    ensures
        deduplicated(Seq::empty()).len() == 0,
        deduplicated(results.push(next)) == (if next.url.len() > 0 && exists|i: int|
            0 <= i < results.len() && (#[trigger] results[i]).url == next.url {
            deduplicated(results)
        } else {
            deduplicated(results).push(next)
        }),
{
    assert(results.push(next).drop_last() =~= results);
}

/// A search gives as many results as asked for where it found as many, else all it found: those
/// that come first.
pub proof fn results_are_cut_at_the_end(results: Seq<ResultTexts>, max: nat, i: int)
    ensures
        first_results(results, max).len() == (if results.len() <= max {
            results.len()
        } else {
            max
        }),
        0 <= i < first_results(results, max).len() ==> first_results(results, max)[i]
            == results[i],
{
}

/// The cooldown lasts thirty seconds.
pub proof fn cooldown_is_half_a_minute(now: u64)
    ensures
        cooldown_end(now) == now + 30,
{
}

/// Result pages are not asked for until the end of the cooldown has come; where none is noted they
/// are.
pub proof fn cooldown_ends_at_its_end(until: u64, now: u64)
    ensures
        rate_limited(until, now) <==> now < until,
        !rate_limited(0, now),
{
}

} // verus!
