use release_notes::config::Config;
use release_notes::error::ReleaseError;
use release_notes::fetch::{fetch_listing, Fetcher, PullRequest};
use release_notes::instant::{days_to_month, days_to_year, month_length, parse_iso_instant, seconds_since_epoch, starts_like_date};
use release_notes::reference::{last_index_of, slice_chars, split_repo_ref};
use release_notes::labels::{retain_unflagged, SkipLabels};
use release_notes::release::{assemble, build_release, ReleaseData};
use release_notes::text::{chars_of, read_number};
use release_notes::timeframe::{Lookup, Timeframe};

fn pr(number: u64, labels: &[&str], merged_at: Option<i64>) -> PullRequest {
    PullRequest {
        number,
        title: format!("Change {}", number),
        author: format!("dev{}", number),
        labels: labels.iter().map(|l| l.to_string()).collect(),
        url: format!("https://example.com/pull/{}", number),
        merged_at,
        listed_at: merged_at.unwrap_or(i64::MAX),
    }
}

fn updated(number: u64, merged_at: Option<i64>, listed_at: i64) -> PullRequest {
    PullRequest { listed_at, ..pr(number, &[], merged_at) }
}

fn numbers(prs: &[PullRequest]) -> Vec<u64> {
    prs.iter().map(|p| p.number).collect()
}

fn skip(patterns: &[&str]) -> SkipLabels {
    SkipLabels::new(patterns.iter().map(|p| p.to_string()).collect()).unwrap()
}

// ---- timeframe parsing ----

#[test]
fn parse_keywords() {
    assert_eq!(Timeframe::parse("latest"), Ok(Timeframe::Latest));
    assert_eq!(Timeframe::parse("now"), Ok(Timeframe::Now));
}

#[test]
fn parse_tag_name() {
    assert_eq!(Timeframe::parse("v1.0.0"), Ok(Timeframe::Tag("v1.0.0".to_string())));
    assert_eq!(Timeframe::parse("Latest"), Ok(Timeframe::Tag("Latest".to_string())));
}

#[test]
fn parse_date_time() {
    assert_eq!(Timeframe::parse("2021-03-04T05:06:07Z"), Ok(Timeframe::DateTime(1614834367)));
    assert_eq!(Timeframe::parse("1970-01-01"), Ok(Timeframe::DateTime(0)));
    assert_eq!(Timeframe::parse("1969-12-31T23:59:59Z"), Ok(Timeframe::DateTime(-1)));
    assert_eq!(Timeframe::parse("2000-02-29"), Ok(Timeframe::DateTime(951782400)));
    assert_eq!(Timeframe::parse("9999-12-31T23:59:59Z"), Ok(Timeframe::DateTime(253402300799)));
}

#[test]
fn parse_impossible_date_is_invalid() {
    assert_eq!(Timeframe::parse("2001-02-29"), Err(ReleaseError::ConfigInvalid));
    assert_eq!(Timeframe::parse("2021-03-04T24:00:00Z"), Err(ReleaseError::ConfigInvalid));
    assert_eq!(Timeframe::parse("2021-03-04T05:06:07.5Z"), Err(ReleaseError::ConfigInvalid));
    assert_eq!(Timeframe::parse("2021-03-04T05:06:07+24:00"), Err(ReleaseError::ConfigInvalid));
    assert_eq!(Timeframe::parse("2021-03-04-rc1"), Err(ReleaseError::ConfigInvalid));
    assert_eq!(Timeframe::parse("2021-3-4"), Ok(Timeframe::Tag("2021-3-4".to_string())));
}

#[test]
fn parse_date_time_with_offset() {
    assert_eq!(Timeframe::parse("2021-03-04T05:06:07+01:00"), Ok(Timeframe::DateTime(1614834367 - 3600)));
    assert_eq!(Timeframe::parse("2021-03-04T05:06:07-02:30"), Ok(Timeframe::DateTime(1614834367 + 9000)));
    assert_eq!(Timeframe::parse("1970-01-01T00:00:00+00:00"), Ok(Timeframe::DateTime(0)));
}

#[test]
fn parse_malformed_is_config_invalid() {
    assert_eq!(Timeframe::parse(""), Err(ReleaseError::ConfigInvalid));
    assert_eq!(Timeframe::parse("v1 .0"), Err(ReleaseError::ConfigInvalid));
    assert_eq!(Timeframe::parse("now\n"), Err(ReleaseError::ConfigInvalid));
}

#[test]
fn calendar_helpers() {
    assert_eq!(month_length(2024, 2), 29);
    assert_eq!(month_length(1900, 2), 28);
    assert_eq!(month_length(2000, 2), 29);
    assert_eq!(month_length(2023, 4), 30);
    assert_eq!(month_length(2023, 12), 31);
    assert_eq!(seconds_since_epoch(2024, 2, 29, 12, 0, 0), 1709208000);
    assert_eq!(seconds_since_epoch(0, 1, 1, 0, 0, 0), -62167219200);
    assert_eq!(seconds_since_epoch(0, 3, 1, 0, 0, 0), -62162035200);
    assert_eq!(days_to_year(1970), 0);
    assert_eq!(days_to_year(1971), 365);
    assert_eq!(days_to_year(1973), 365 + 365 + 366);
    assert_eq!(days_to_year(1969), -365);
    assert_eq!(days_to_year(2000), 10957);
    assert_eq!(days_to_month(2024, 1), 0);
    assert_eq!(days_to_month(2024, 3), 31 + 29);
    assert_eq!(days_to_month(2023, 12), 334);
}

#[test]
fn text_helpers() {
    let cs = chars_of("ab12x");
    assert_eq!(cs, vec!['a', 'b', '1', '2', 'x']);
    assert_eq!(read_number(&cs, 2, 2), Some(12));
    assert_eq!(read_number(&cs, 2, 3), None);
    assert_eq!(read_number(&cs, 4, 2), None);
    assert_eq!(parse_iso_instant(&chars_of("2021-13-01")), None);
    assert_eq!(read_number(&chars_of("123456789012345678"), 0, 18), Some(123456789012345678));
    assert_eq!(read_number(&chars_of("0099"), 0, 4), Some(99));
    assert!(starts_like_date(&chars_of("2021-01-01xyz")));
    assert!(!starts_like_date(&chars_of("2021-1-01")));
}

#[test]
fn split_repository_reference() {
    let (o, r, v) = split_repo_ref("EmbarkStudios/cargo-deny@0.9.0").unwrap();
    let text = |c: Vec<char>| c.into_iter().collect::<String>();
    assert_eq!((text(o), text(r), text(v)), ("EmbarkStudios".to_string(), "cargo-deny".to_string(), "0.9.0".to_string()));
    let (o, r, v) = split_repo_ref("o/r@v/x@1").unwrap();
    assert_eq!((text(o), text(r), text(v)), ("o/r@v".to_string(), "x".to_string(), "1".to_string()));
    let (o, r, v) = split_repo_ref("a/b/c@d").unwrap();
    assert_eq!((text(o), text(r), text(v)), ("a/b".to_string(), "c".to_string(), "d".to_string()));
}

#[test]
fn split_repository_reference_malformed() {
    for s in ["", "owner/repo", "owner@1.0", "/repo@1", "owner/@1", "owner/repo@", "own er/repo@1", "a@b/c"] {
        assert!(matches!(split_repo_ref(s), Err(ReleaseError::ConfigInvalid)), "{}", s);
    }
}

#[test]
fn char_slices() {
    let cs = chars_of("a/b/c");
    assert_eq!(last_index_of(&cs, '/', 5), Some(3));
    assert_eq!(last_index_of(&cs, '/', 3), Some(1));
    assert_eq!(last_index_of(&cs, '@', 5), None);
    assert_eq!(slice_chars(&cs, 2, 5), vec!['b', '/', 'c']);
}

// ---- resolution ----

#[test]
fn resolve_without_remote() {
    assert_eq!(Timeframe::Now.resolve(500, Ok(None)), Ok(500));
    assert_eq!(Timeframe::DateTime(42).resolve(500, Err(ReleaseError::Transport)), Ok(42));
    assert_eq!(Timeframe::Now.lookup(), None);
    assert_eq!(Timeframe::DateTime(1).lookup(), None);
}

#[test]
fn resolve_missing_release_or_tag_is_not_found() {
    assert_eq!(Timeframe::Latest.lookup(), Some(Lookup::LatestRelease));
    assert_eq!(Timeframe::Latest.resolve(500, Ok(None)), Err(ReleaseError::NotFound));
    let tag = Timeframe::Tag("nonexistent".to_string());
    assert_eq!(tag.lookup(), Some(Lookup::TagCommit("nonexistent".to_string())));
    assert_eq!(tag.resolve(500, Ok(None)), Err(ReleaseError::NotFound));
}

#[test]
fn resolve_found_and_errors_pass_through() {
    assert_eq!(Timeframe::Latest.resolve(500, Ok(Some(300))), Ok(300));
    let tag = Timeframe::Tag("v2".to_string());
    assert_eq!(tag.resolve(500, Ok(Some(7))), Ok(7));
    assert_eq!(tag.resolve(500, Err(ReleaseError::RateLimited)), Err(ReleaseError::RateLimited));
    assert_eq!(Timeframe::Latest.resolve(500, Err(ReleaseError::AuthFailure)), Err(ReleaseError::AuthFailure));
}

// ---- fetching ----

#[test]
fn fetcher_keeps_only_the_window() {
    let listing = vec![
        vec![pr(1, &[], Some(120)), pr(2, &[], Some(100)), pr(3, &[], None)],
        vec![pr(4, &[], Some(90)), pr(5, &[], Some(50)), pr(6, &[], Some(95))],
        vec![pr(7, &[], Some(80))],
    ];
    let (kept, pages) = fetch_listing(listing, 60, 100);
    assert_eq!(numbers(&kept), vec![2, 4]);
    assert_eq!(pages, 2);
    for p in &kept {
        let t = p.merged_at.unwrap();
        assert!(60 <= t && t <= 100);
    }
}

#[test]
fn fetcher_bounds_are_inclusive() {
    let listing = vec![vec![pr(1, &[], Some(101)), pr(2, &[], Some(100)), pr(3, &[], Some(60)), pr(4, &[], Some(59))]];
    let (kept, pages) = fetch_listing(listing, 60, 100);
    assert_eq!(numbers(&kept), vec![2, 3]);
    assert_eq!(pages, 1);
}

#[test]
fn fetcher_stops_at_first_older_page() {
    let listing = vec![
        vec![pr(1, &[], Some(100)), pr(2, &[], Some(90))],
        vec![pr(3, &[], Some(80)), pr(4, &[], Some(70))],
        vec![pr(5, &[], Some(60)), pr(6, &[], Some(50))],
        vec![pr(7, &[], Some(40))],
    ];
    let (kept, pages) = fetch_listing(listing, 75, 95);
    assert_eq!(numbers(&kept), vec![2, 3]);
    assert_eq!(pages, 2);
}

#[test]
fn fetcher_reads_every_page_when_none_is_older() {
    let listing = vec![vec![pr(1, &[], Some(100))], vec![pr(2, &[], Some(90))], vec![]];
    let (kept, pages) = fetch_listing(listing, 10, 1000);
    assert_eq!(numbers(&kept), vec![1, 2]);
    assert_eq!(pages, 3);
    let (kept, pages) = fetch_listing(vec![], 10, 1000);
    assert!(kept.is_empty());
    assert_eq!(pages, 0);
}

#[test]
fn fetcher_on_update_ordered_listing() {
    // an old change updated lately does not end the scan; the first one
    // updated before the window does
    let listing = vec![
        vec![updated(1, Some(10), 150), updated(2, Some(95), 140), updated(3, None, 120)],
        vec![updated(4, Some(70), 80), updated(5, Some(50), 55), updated(6, Some(65), 50)],
        vec![updated(7, Some(61), 40)],
    ];
    let (kept, pages) = fetch_listing(listing, 60, 100);
    assert_eq!(numbers(&kept), vec![2, 4]);
    assert_eq!(pages, 2);
}

#[test]
fn fetcher_state_machine() {
    let mut f = Fetcher::new(10, 20);
    assert_eq!(f.next_page(), Some(0));
    f.take_page(vec![pr(1, &[], Some(25)), pr(2, &[], Some(15))], false);
    assert!(!f.is_done());
    assert_eq!(f.next_page(), Some(1));
    f.take_page(vec![pr(3, &[], Some(12)), pr(4, &[], Some(5)), pr(5, &[], Some(11))], false);
    assert!(f.is_done());
    assert_eq!(f.next_page(), None);
    assert_eq!(numbers(&f.into_changes()), vec![2, 3]);

    let mut g = Fetcher::new(10, 20);
    g.take_page(vec![pr(1, &[], Some(15))], true);
    assert!(g.is_done());
    assert_eq!(g.next_page(), None);
}

// ---- label filter ----

#[test]
fn filter_drops_matching_labels() {
    let s = skip(&["^chore", "wip"]);
    let prs = vec![
        pr(1, &["feature"], Some(1)),
        pr(2, &["docs", "chore: bump"], Some(1)),
        pr(3, &["is wip here"], Some(1)),
        pr(4, &["a-chore"], Some(1)),
        pr(5, &[], Some(1)),
    ];
    assert_eq!(numbers(&s.filter(prs)), vec![1, 4, 5]);
    assert!(s.skips_label("wip: experimental"));
    assert!(!s.skips_label("feature"));
}

#[test]
fn filter_is_idempotent() {
    let s = skip(&["^chore"]);
    let prs = vec![pr(1, &["feature"], Some(1)), pr(2, &["chore"], Some(1)), pr(3, &["fix"], Some(1))];
    let once = s.filter(prs);
    let once_numbers = numbers(&once);
    let twice = s.filter(once);
    assert_eq!(numbers(&twice), once_numbers);
    assert_eq!(once_numbers, vec![1, 3]);
}

#[test]
fn filter_without_patterns_is_identity() {
    let s = skip(&[]);
    let prs = vec![pr(3, &["chore"], Some(1)), pr(1, &[], None), pr(2, &["wip"], Some(1))];
    assert_eq!(numbers(&s.filter(prs)), vec![3, 1, 2]);
}

#[test]
fn filter_bad_pattern_is_config_invalid() {
    assert!(matches!(SkipLabels::new(vec!["(".to_string()]), Err(ReleaseError::ConfigInvalid)));
}

#[test]
fn retain_by_flags() {
    let prs = vec![pr(1, &[], None), pr(2, &[], None), pr(3, &[], None)];
    assert_eq!(numbers(&retain_unflagged(prs, &vec![true, false, true])), vec![2]);
}

// ---- assembly ----

#[test]
fn assemble_keeps_order_and_fields() {
    let data: ReleaseData = assemble("1.2.0".to_string(), vec![pr(9, &["x"], Some(5)), pr(4, &[], Some(3))]);
    assert_eq!(data.version, "1.2.0");
    assert_eq!(data.entries.len(), 2);
    assert_eq!(data.entries[0].number, 9);
    assert_eq!(data.entries[0].title, "Change 9");
    assert_eq!(data.entries[0].author, "dev9");
    assert_eq!(data.entries[0].labels, vec!["x".to_string()]);
    assert_eq!(data.entries[0].url, "https://example.com/pull/9");
    assert_eq!(data.entries[1].number, 4);
}

#[test]
fn end_to_end_between_tags() {
    let config = Config::from_text(
        "owner".to_string(),
        "repo".to_string(),
        "v1.0.0",
        "v1.1.0",
        vec!["^chore".to_string()],
        "{{ version }}".to_string(),
    )
    .unwrap();
    assert_eq!(config.from.lookup(), Some(Lookup::TagCommit("v1.0.0".to_string())));
    let from = config.from.resolve(5000, Ok(Some(1000))).unwrap();
    let to = config.to.resolve(5000, Ok(Some(2000))).unwrap();
    let listing = vec![
        vec![pr(12, &["feature"], Some(2500)), pr(11, &["chore: bump"], Some(1800))],
        vec![pr(10, &["feature"], Some(1500)), pr(8, &["feature"], Some(900))],
        vec![pr(7, &[], Some(800))],
    ];
    let (changes, pages) = fetch_listing(listing, from, to);
    assert_eq!(pages, 2);
    let data = build_release("v1.1.0".to_string(), changes, &config.skip_labels);
    assert_eq!(data.entries.len(), 1);
    assert_eq!(data.entries[0].number, 10);
}

#[test]
fn end_to_end_now_to_now_is_empty() {
    let config = Config::from_text("o".to_string(), "r".to_string(), "now", "now", vec![], String::new()).unwrap();
    let now = 1_700_000_000;
    let from = config.from.resolve(now, Ok(None)).unwrap();
    let to = config.to.resolve(now, Ok(None)).unwrap();
    assert_eq!((from, to), (now, now));
    let listing = vec![vec![pr(1, &[], Some(now - 10)), pr(2, &[], Some(now - 20))]];
    let (changes, _) = fetch_listing(listing, from, to);
    let data = build_release("v0".to_string(), changes, &config.skip_labels);
    assert!(data.entries.is_empty());
    let titles: Vec<String> = data.entries.iter().map(|e| e.title.clone()).collect();
    let mut context = tera::Context::new();
    context.insert("version", &data.version);
    context.insert("entries", &titles);
    let text = tera::Tera::one_off(
        "{{ version }}: {% for e in entries %}{{ e }} {% endfor %}{% if entries | length == 0 %}no changes{% endif %}",
        &context,
        false,
    )
    .unwrap();
    assert_eq!(text, "v0: no changes");
}

// ---- configuration ----

#[test]
fn config_defaults_and_overrides() {
    let mut c = Config::new("o".to_string(), "r".to_string(), "t".to_string());
    assert_eq!(c.from, Timeframe::Latest);
    assert_eq!(c.to, Timeframe::Now);
    assert_eq!(numbers(&c.skip_labels.filter(vec![pr(1, &["chore"], None)])), vec![1]);
    c.apply_overrides(Some(Timeframe::Tag("v1".to_string())), None, Some(skip(&["chore"])));
    assert_eq!(c.from, Timeframe::Tag("v1".to_string()));
    assert_eq!(c.to, Timeframe::Now);
    assert!(c.skip_labels.filter(vec![pr(1, &["chore"], None)]).is_empty());
}

#[test]
fn config_from_text_errors() {
    let bad_from = Config::from_text("o".to_string(), "r".to_string(), "", "now", vec![], String::new());
    assert!(matches!(bad_from, Err(ReleaseError::ConfigInvalid)));
    let bad_pattern = Config::from_text("o".to_string(), "r".to_string(), "latest", "now", vec!["[".to_string()], String::new());
    assert!(matches!(bad_pattern, Err(ReleaseError::ConfigInvalid)));
    let ok = Config::from_text("o".to_string(), "r".to_string(), "2020-01-01", "latest", vec![], String::new()).unwrap();
    assert_eq!(ok.from, Timeframe::DateTime(1577836800));
    assert_eq!(ok.to, Timeframe::Latest);
}
