use llmr::chat::message::{Message, Role, StopReason};
use llmr::chat::response::ChatResponse;
use llmr::cost::ledger::{Ledger, Total};
use llmr::cost::pricing::{day_number, Micros, PriceBook, Priced, Rate, Recheck};
use llmr::cost::usage::{Usage, UsageCoverage};
use llmr::order::Table;

fn fixture() -> PriceBook {
    PriceBook::parse(
        r#"
id             = "test-2026-08"
provider       = "test"
effective_from = "2026-08-01"
source         = "a fixture"
verified_at    = "2026-08-30"
currency       = "USD"

[[price]]
model  = "m"
input  = "10.00"
output = "30.00"
"#,
    )
    .unwrap_or_else(|e| panic!("the fixture book: {e}"))
}

fn reply(model: &str, usage: Usage) -> ChatResponse {
    ChatResponse::new(
        Message {
            role: Role::Assistant,
            content: vec![],
        },
        StopReason::EndTurn,
        usage,
        model.into(),
    )
}

/// The same rates, billed in a different currency.
fn in_euros() -> PriceBook {
    PriceBook::parse(
        r#"
id             = "test-eur-2026-08"
provider       = "test"
effective_from = "2026-08-01"
source         = "a fixture"
verified_at    = "2026-08-30"
currency       = "EUR"

[[price]]
model  = "m"
input  = "10.00"
output = "30.00"
"#,
    )
    .unwrap_or_else(|e| panic!("the euro book: {e}"))
}

/// The total of a run that is in one currency, which is what most of these tests are.
fn sum(ledger: &Ledger) -> Total {
    match ledger.total() {
        Some(total) => total,
        None => panic!("this run is priced in one currency"),
    }
}

/// Everything reported, so a price built from it is exact.
fn measured() -> Usage {
    Usage::absent()
        .with_input(1_000_000)
        .with_cache_read(0)
        .with_cache_write(0)
        .with_output(1_000_000)
}

#[test]
fn a_run_of_measured_calls_totals_exactly() {
    let mut ledger = Ledger::new();
    ledger.record(&reply("m", measured()), Some(&fixture()));
    ledger.record(&reply("m", measured()), Some(&fixture()));

    let total = sum(&ledger);
    assert!(total.is_exact(), "{total:?}");
    assert_eq!(ledger.calls(), 2);
    assert_eq!(ledger.unpriced(), 0);
    // Two calls of 10 in and 30 out, per million, on a million each.
    assert_eq!(total.amount(), Micros(80_000_000));
}

#[test]
fn the_loser_of_a_hedged_pair_makes_the_total_a_floor() {
    // Two providers asked the same question, the first answer taken, the other dropped. Without
    // the second line this ledger reports one measured call and an exact total, having been
    // billed for two.
    let mut ledger = Ledger::new();
    ledger.record(&reply("m", measured()), Some(&fixture()));
    ledger.record_cancelled("m");

    assert_eq!(ledger.calls(), 2, "both requests were sent");
    assert_eq!(ledger.unpriced(), 1);

    let total = sum(&ledger);
    assert!(!total.is_exact(), "{total:?}");
    assert_eq!(
        total.amount(),
        Micros(40_000_000),
        "the winner is still priced"
    );
}

#[test]
fn one_unpriced_call_turns_the_whole_total_into_a_floor() {
    // The rule the type exists for. A run that mixes a priced API call with a command line one
    // must not report the first figure as though it were the bill.
    let mut ledger = Ledger::new();
    ledger.record(&reply("m", measured()), Some(&fixture()));
    ledger.record_unpriced("sonnet-5", Usage::absent());

    let total = sum(&ledger);
    assert!(!total.is_exact(), "{total:?}");
    assert_eq!(
        total.amount(),
        Micros(40_000_000),
        "what is known is still known"
    );
    assert!(total.to_string().starts_with("at least"), "{total:?}");
}

#[test]
fn a_call_nobody_could_price_is_counted_rather_than_dropped() {
    // "Forty calls, thirty of them priced" is a different sentence from "thirty calls", and a
    // ledger that reported the second would be wrong about the run.
    let mut ledger = Ledger::new();
    ledger.record_unpriced("sonnet-5", Usage::absent());
    ledger.record_unpriced("sonnet-5", Usage::absent());

    assert_eq!(ledger.calls(), 2);
    assert_eq!(ledger.unpriced(), 2);
    assert_eq!(sum(&ledger).amount(), Micros(0));
    assert!(
        !sum(&ledger).is_exact(),
        "nought known is not the same as nought spent"
    );
}

#[test]
fn a_price_from_partial_usage_makes_the_total_a_floor_too() {
    // The cost is real and it is not the whole cost. `Priced` already carries the coverage; this
    // is that fact surviving addition.
    let mut ledger = Ledger::new();
    ledger.record(
        &reply("m", Usage::absent().with_output(1_000_000)),
        Some(&fixture()),
    );

    assert_eq!(ledger.unpriced(), 0, "it was priced");
    assert!(!sum(&ledger).is_exact(), "from half the numbers");
}

#[test]
fn a_model_with_no_row_in_the_book_is_unpriced_rather_than_free() {
    let mut ledger = Ledger::new();
    ledger.record(
        &reply("a-model-nobody-priced", measured()),
        Some(&fixture()),
    );

    assert_eq!(ledger.calls(), 1);
    assert_eq!(ledger.unpriced(), 1);
    assert!(!sum(&ledger).is_exact());
}

#[test]
fn the_edition_each_cost_came_from_is_kept() {
    // So a figure can be traced back to the table that produced it, which is the whole reason
    // `Priced` carries a book id.
    let mut ledger = Ledger::new();
    ledger.record(&reply("m", measured()), Some(&fixture()));
    ledger.record(&reply("m", measured()), Some(&fixture()));

    assert_eq!(ledger.editions(), vec!["test-2026-08"]);
    assert_eq!(
        ledger.lines()[0].cost.as_ref().map(|c| c.book.as_str()),
        Some("test-2026-08")
    );
}

#[test]
fn a_later_book_does_not_rewrite_what_an_earlier_call_cost() {
    // Prices change. What a call cost is a fact about the moment it was made, and a ledger that
    // re-priced its contents would destroy the record it exists to keep.
    let mut ledger = Ledger::new();
    ledger.record(&reply("m", measured()), Some(&fixture()));
    let then = sum(&ledger).amount();

    let dearer = PriceBook::parse(
        r#"
id             = "test-2026-09"
provider       = "test"
effective_from = "2026-09-01"
source         = "a fixture"
verified_at    = "2026-09-01"
currency       = "USD"

[[price]]
model  = "m"
input  = "20.00"
output = "60.00"
"#,
    )
    .unwrap_or_else(|e| panic!("the second book: {e}"));

    ledger.record(&reply("m", measured()), Some(&dearer));

    assert_eq!(
        ledger.lines()[0].cost.as_ref().map(|c| c.amount),
        Some(then),
        "the first call still costs what it cost"
    );
    assert_eq!(ledger.editions(), vec!["test-2026-08", "test-2026-09"]);
}

#[test]
fn a_run_in_one_currency_says_which_one() {
    let mut ledger = Ledger::new();
    ledger.record(&reply("m", measured()), Some(&fixture()));

    assert_eq!(ledger.currency(), Some("USD"));
    assert_eq!(
        ledger.totals(),
        vec![("USD".to_string(), Total::Exact(Micros(40_000_000)))]
    );
}

#[test]
fn a_run_priced_in_two_currencies_has_no_single_total() {
    // The hole this all exists to close. `Micros` is an integer: forty dollars and forty euros
    // add to eighty of nothing, and the answer looks exactly like a real one.
    let mut ledger = Ledger::new();
    ledger.record(&reply("m", measured()), Some(&fixture()));
    ledger.record(&reply("m", measured()), Some(&in_euros()));

    assert_eq!(ledger.total(), None, "there is no such number");
    assert_eq!(ledger.currency(), None);
    assert_eq!(ledger.currencies(), vec!["EUR", "USD"]);
    assert_eq!(ledger.calls(), 2, "both calls still happened");
}

#[test]
fn a_mixed_run_is_totalled_one_currency_at_a_time() {
    let mut ledger = Ledger::new();
    ledger.record(&reply("m", measured()), Some(&fixture()));
    ledger.record(&reply("m", measured()), Some(&in_euros()));
    ledger.record(&reply("m", measured()), Some(&in_euros()));

    assert_eq!(
        ledger.totals(),
        vec![
            ("EUR".to_string(), Total::Exact(Micros(80_000_000))),
            ("USD".to_string(), Total::Exact(Micros(40_000_000))),
        ]
    );
}

#[test]
fn one_unpriced_call_makes_every_currency_a_floor() {
    // Not just one of them. Nothing records which currency the unpriced call would have been
    // billed in, so it is missing from all of them.
    let mut ledger = Ledger::new();
    ledger.record(&reply("m", measured()), Some(&fixture()));
    ledger.record(&reply("m", measured()), Some(&in_euros()));
    ledger.record_unpriced("sonnet-5", Usage::absent());

    assert_eq!(
        ledger.totals(),
        vec![
            ("EUR".to_string(), Total::AtLeast(Micros(40_000_000))),
            ("USD".to_string(), Total::AtLeast(Micros(40_000_000))),
        ]
    );
}

#[test]
fn a_run_nobody_priced_totals_to_a_floor_rather_than_to_nothing() {
    // No currency disagrees with any other, because none was named. That is a total, and an
    // empty `totals()` beside a call count of two is the shape a report has to print.
    let mut ledger = Ledger::new();
    ledger.record_unpriced("sonnet-5", Usage::absent());
    ledger.record_unpriced("sonnet-5", Usage::absent());

    assert_eq!(ledger.total(), Some(Total::AtLeast(Micros(0))));
    assert_eq!(ledger.currency(), None);
    assert!(ledger.totals().is_empty());
    assert_eq!(ledger.calls(), 2);
}

#[test]
fn absorbing_a_ledger_in_another_currency_is_noticed() {
    // Two tasks, two books, joined at the end. This is the realistic way a mixed run happens,
    // and the join must not produce a number.
    let mut one = Ledger::new();
    one.record(&reply("m", measured()), Some(&fixture()));
    assert!(one.total().is_some());

    let mut other = Ledger::new();
    other.record(&reply("m", measured()), Some(&in_euros()));

    one.absorb(other);
    assert_eq!(one.total(), None);
}

#[test]
fn two_ledgers_join_without_losing_what_either_knew() {
    let mut one = Ledger::new();
    one.record(&reply("m", measured()), Some(&fixture()));

    let mut other = Ledger::new();
    other.record_unpriced("sonnet-5", Usage::absent());

    one.absorb(other);
    assert_eq!(one.calls(), 2);
    assert_eq!(one.unpriced(), 1);
    assert!(!sum(&one).is_exact());
}

/// A book with the dates a test wants and no rows.
fn dated(verified_at: &str, expires_on: Option<&str>) -> PriceBook {
    PriceBook {
        id: "b".into(),
        provider: "p".into(),
        effective_from: "2026-01-01".into(),
        source: "a published page".into(),
        verified_at: verified_at.into(),
        expires_on: expires_on.map(Into::into),
        currency: "USD".into(),
        rates: Table::new(),
    }
}

#[test]
fn a_day_number_counts_from_the_epoch_and_gets_the_leap_years_right() {
    // Fixed points anybody can check, and the two the arithmetic gets wrong when the year is not
    // shifted to start in March.
    assert_eq!(day_number("1970-01-01"), Some(0));
    assert_eq!(day_number("1970-01-02"), Some(1));
    assert_eq!(
        day_number("2000-03-01"),
        day_number("2000-02-29").map(|d| d + 1)
    );
    assert_eq!(
        day_number("2100-03-01"),
        day_number("2100-02-28").map(|d| d + 1)
    );
    assert_eq!(day_number("1969-12-31"), Some(-1));
    assert_eq!(day_number("2000-02-29"), Some(11_016));
}

#[test]
fn a_date_that_is_not_one_is_refused_rather_than_read_as_zero() {
    // The failure that matters: a date read as day zero makes every book fifty years stale, and
    // a date read as "today" makes every book eternally fresh. Neither is a number, so neither
    // is returned.
    assert_eq!(day_number("soon"), None);
    assert_eq!(day_number("2026-13-01"), None);
    assert_eq!(day_number("2026-00-10"), None);
    assert_eq!(day_number("2026-08"), None);
    assert_eq!(day_number(""), None);
}

#[test]
fn a_books_age_is_days_since_a_person_last_checked_it() {
    let book = dated("2026-08-01", None);
    assert_eq!(book.age("2026-08-31"), Some(30));
    assert_eq!(book.age("2026-08-01"), Some(0));
    assert_eq!(
        book.age("2026-07-31"),
        Some(-1),
        "a table dated in the future is one somebody typed wrong, and saying so beats clamping it to zero"
    );
}

#[test]
fn a_book_nobody_has_checked_in_a_quarter_asks_to_be_checked() {
    let book = dated("2026-08-01", None);
    assert_eq!(book.needs_rechecking("2026-09-01"), None);
    assert_eq!(
        book.needs_rechecking("2026-10-30"),
        Some(Recheck::Aged { days: 90 }),
        "the rule is >= RECHECK_AFTER_DAYS, and the boundary is part of the rule"
    );
}

#[test]
fn an_expiry_the_book_announced_wins_over_its_age() {
    // Both are true past the end date. The one worth reporting is the settled one: ageing says
    // somebody should look, expiry says the numbers have already changed.
    let book = dated("2026-08-01", Some("2026-12-31"));
    assert_eq!(
        book.needs_rechecking("2027-01-02"),
        Some(Recheck::Expired {
            on: "2026-12-31".into(),
            days_ago: 2
        })
    );
    assert_eq!(
        book.needs_rechecking("2026-12-31"),
        Some(Recheck::Aged { days: 152 }),
        "on the last good day it has not expired, though it has certainly aged"
    );
}

#[test]
fn a_book_whose_date_cannot_be_read_reports_that_rather_than_ageing_forever() {
    // The quiet failure. A `verified_at` of "recently" parses as TOML and would make this book
    // permanently fresh, which is the one answer that can never be checked.
    assert_eq!(
        dated("recently", None).needs_rechecking("2026-08-31"),
        Some(Recheck::Undatable {
            field: "verified_at"
        })
    );
    assert_eq!(
        dated("2026-08-01", Some("when the contract ends")).needs_rechecking("2026-08-02"),
        Some(Recheck::Undatable {
            field: "expires_on"
        })
    );
    assert_eq!(
        dated("2026-08-01", None).needs_rechecking("today"),
        Some(Recheck::Undatable { field: "today" })
    );
}

fn book() -> PriceBook {
    let mut rates = Table::new();
    rates.insert(
        "test-model".to_string(),
        Rate {
            input: Micros(3_000_000),
            cache_read: Micros(300_000),
            cache_write: Micros(3_750_000),
            output: Micros(15_000_000),
        },
    );
    PriceBook {
        id: "test-2026-08".into(),
        provider: "test".into(),
        effective_from: "2026-08-01".into(),
        source: "docs".into(),
        verified_at: "2026-08-28".into(),
        expires_on: None,
        currency: "USD".into(),
        rates,
    }
}

#[test]
fn pricing_a_call_the_provider_did_not_measure_has_no_price() {
    // The case a subscription command line tool produces on every call. Returning zero would
    // make an unknown cost look like a free one.
    assert_eq!(book().price(&"test-model".into(), &Usage::absent()), None);
}

#[test]
fn pricing_a_model_this_book_does_not_list_has_no_price() {
    let usage = Usage {
        output_tokens: Some(1_000),
        ..Usage::absent()
    };
    assert_eq!(book().price(&"some-other-model".into(), &usage), None);
}

#[test]
fn pricing_a_priced_call_names_the_book_that_priced_it() {
    let usage = Usage {
        input_tokens: Some(1_000_000),
        cache_read_tokens: Some(0),
        cache_write_tokens: Some(0),
        output_tokens: Some(1_000_000),
        estimated: false,
    };
    let priced = book()
        .price(&"test-model".into(), &usage)
        .unwrap_or(Priced {
            amount: Micros(0),
            currency: "none".into(),
            book: "none".into(),
            coverage: UsageCoverage::Absent,
        });
    assert_eq!(priced.amount, Micros(18_000_000));
    assert_eq!(priced.amount.exact(), "18.000000");
    assert_eq!(priced.book, "test-2026-08");
    assert_eq!(priced.coverage, UsageCoverage::Exact);
}

#[test]
fn a_priced_call_says_what_the_amount_is_denominated_in() {
    // Without it, adding two costs from two books produces a number in no currency at all. The
    // book already knows; this is that fact travelling with the amount.
    let usage = Usage {
        output_tokens: Some(1_000_000),
        ..Usage::absent()
    };
    assert_eq!(
        book()
            .price(&"test-model".into(), &usage)
            .map(|p| p.currency),
        Some("USD".to_string())
    );
}

#[test]
fn pricing_a_cost_from_partial_usage_says_it_is_partial() {
    let usage = Usage {
        output_tokens: Some(1_000_000),
        ..Usage::absent()
    };
    let priced = book().price(&"test-model".into(), &usage);
    assert_eq!(
        priced.map(|p| p.coverage),
        Some(UsageCoverage::Partial),
        "a total built from partial usage understates the bill and has to say so"
    );
}

#[test]
fn pricing_a_book_with_no_source_is_refused() {
    let refused = PriceBook::parse(
        "id = \"x\"\nprovider = \"p\"\neffective_from = \"2026-01-01\"\n\
         source = \"\"\nverified_at = \"2026-01-01\"\ncurrency = \"USD\"\n",
    );
    assert!(refused.is_err());
}

#[test]
fn pricing_money_is_written_to_six_places_rather_than_two() {
    // Rounding a per call cost to cents turns most calls into zero.
    assert_eq!(Micros(1_234).exact(), "0.001234");
    assert_eq!(Micros(-2_500_000).exact(), "-2.500000");
}

/// The same book, as a file.
fn read_book() -> PriceBook {
    PriceBook::parse(
        "id = \"test-2026-08\"\nprovider = \"test\"\neffective_from = \"2026-08-01\"\n\
         source = \"docs\"\nverified_at = \"2026-08-28\"\ncurrency = \"USD\"\n\
         [[price]]\nmodel = \"test-model\"\ninput = \"3\"\ncache_read = \"0.3\"\n\
         cache_write = \"3.75\"\noutput = \"15.00\"\n",
    )
    .unwrap()
}

#[test]
fn a_call_the_provider_did_not_measure_has_no_price() {
    assert_eq!(
        read_book().price(&"test-model".into(), &Usage::absent()),
        None
    );
}

#[test]
fn a_model_this_book_does_not_list_has_no_price() {
    let usage = Usage {
        output_tokens: Some(1_000),
        ..Usage::absent()
    };
    assert_eq!(read_book().price(&"some-other-model".into(), &usage), None);
}

#[test]
fn a_priced_call_names_the_book_that_priced_it() {
    let usage = Usage {
        input_tokens: Some(1_000_000),
        cache_read_tokens: Some(0),
        cache_write_tokens: Some(0),
        output_tokens: Some(1_000_000),
        estimated: false,
    };
    let priced = read_book()
        .price(&"test-model".into(), &usage)
        .unwrap_or(Priced {
            amount: Micros(0),
            currency: "none".into(),
            book: "none".into(),
            coverage: UsageCoverage::Absent,
        });
    assert_eq!(priced.amount, Micros(18_000_000));
    assert_eq!(priced.amount.exact(), "18.000000");
    assert_eq!(priced.book, "test-2026-08");
    assert_eq!(priced.coverage, UsageCoverage::Exact);
}

#[test]
fn a_cost_from_partial_usage_says_it_is_partial() {
    let usage = Usage {
        output_tokens: Some(1_000_000),
        ..Usage::absent()
    };
    let priced = read_book().price(&"test-model".into(), &usage);
    assert_eq!(
        priced.map(|p| p.coverage),
        Some(UsageCoverage::Partial),
        "a total built from partial usage understates the bill and has to say so"
    );
}

#[test]
fn a_book_with_no_source_is_refused() {
    let refused = PriceBook::parse(
        "id = \"x\"\nprovider = \"p\"\neffective_from = \"2026-01-01\"\n\
         source = \"\"\nverified_at = \"2026-01-01\"\ncurrency = \"USD\"\n",
    );
    let why = refused.err().unwrap_or_default();
    assert!(why.starts_with("source is blank"), "{why}");
}

#[test]
fn money_is_written_to_six_places_rather_than_two() {
    assert_eq!(Micros(1_234).exact(), "0.001234");
    assert_eq!(Micros(-2_500_000).exact(), "-2.500000");
    assert_eq!(Micros(0).exact(), "0.000000");
    assert_eq!(Micros(i64::MIN).exact(), "-9223372036854.775808");
}

#[test]
fn an_amount_written_out_reads_back() {
    for amount in [0, 1, -1, 999_999, 1_000_000, -12_345_678, i64::MAX, -i64::MAX] {
        let written = Micros(amount).exact();
        assert_eq!(Micros::parse(&written), Ok(Micros(amount)), "{written}");
    }
    assert!(Micros::parse("ten").is_err());
    assert_eq!(Micros(i64::MAX) + Micros(1), Micros(i64::MAX));
}

#[test]
fn a_text_that_is_not_toml_is_no_book() {
    assert!(PriceBook::parse("id = ").is_err());
}

fn full() -> Usage {
    Usage {
        input_tokens: Some(100),
        cache_read_tokens: Some(900),
        cache_write_tokens: Some(50),
        output_tokens: Some(20),
        estimated: false,
    }
}

#[test]
fn nothing_reported_is_absent_rather_than_zero() {
    let nothing = Usage::absent();
    assert_eq!(nothing.coverage(), UsageCoverage::Absent);
    assert_eq!(nothing.prompt_tokens(), None);
    assert_eq!(nothing.output_tokens, None);
}

#[test]
fn some_fields_reported_is_partial() {
    let partial = Usage {
        output_tokens: Some(20),
        ..Usage::absent()
    };
    assert_eq!(partial.coverage(), UsageCoverage::Partial);
}

#[test]
fn every_field_reported_is_exact() {
    assert_eq!(full().coverage(), UsageCoverage::Exact);
}

#[test]
fn the_prompt_total_counts_the_cached_part() {
    assert_eq!(full().prompt_tokens(), Some(1_050));
}

#[test]
fn merging_two_absent_usages_stays_absent() {
    let merged = Usage::absent().merge(Usage::absent());
    assert_eq!(merged.coverage(), UsageCoverage::Absent);
}

#[test]
fn merging_a_reported_call_with_an_unreported_one_keeps_the_number() {
    // A run of ten calls where one provider reports and another does not should not report
    // nothing. What is known stays known.
    let merged = full().merge(Usage::absent());
    assert_eq!(merged.output_tokens, Some(20));
    assert_eq!(merged.coverage(), UsageCoverage::Exact);
}

#[test]
fn merging_adds_field_by_field() {
    let merged = full().merge(full());
    assert_eq!(merged.input_tokens, Some(200));
    assert_eq!(merged.output_tokens, Some(40));
}

#[test]
fn a_locally_counted_call_is_estimated_rather_than_exact() {
    // Folding a count into `Exact` would destroy the one property this type is for. It is a
    // different kind of wrong from `Partial` too: partial understates, an estimate can be wrong
    // either way.
    let counted = full().estimating();
    assert_eq!(counted.coverage(), UsageCoverage::Estimated);
    assert_eq!(counted.prompt_tokens(), Some(1_050), "still a number");
}

#[test]
fn an_estimate_of_some_fields_is_still_an_estimate_rather_than_partial() {
    // `Partial` claims the figure is a floor, and an estimate is not one whether or not every
    // field was counted.
    let some = Usage::absent().with_output(20).estimating();
    assert_eq!(some.coverage(), UsageCoverage::Estimated);
}

#[test]
fn estimating_nothing_is_still_nothing() {
    // There is no estimate to be approximate about, so the flag changes no answer here.
    assert_eq!(
        Usage::absent().estimating().coverage(),
        UsageCoverage::Absent
    );
}

#[test]
fn a_measured_call_merged_with_an_estimated_one_is_estimated() {
    // The sum is partly guessed and has to say so, or the guess disappears into the measurement
    // the first time two calls are added up.
    assert_eq!(
        full().merge(full().estimating()).coverage(),
        UsageCoverage::Estimated
    );
    assert_eq!(full().merge(full()).coverage(), UsageCoverage::Exact);
}

#[test]
fn the_coverages_are_ordered_best_first() {
    // Read by anything comparing two calls. Exact beats an estimate, an estimate beats a figure
    // that is short, and all three beat nothing.
    assert!(UsageCoverage::Exact < UsageCoverage::Estimated);
    assert!(UsageCoverage::Estimated < UsageCoverage::Partial);
    assert!(UsageCoverage::Partial < UsageCoverage::Absent);
}

#[test]
fn an_embedding_call_is_measured_exactly_rather_than_partly() {
    // One number is all an embedding endpoint has to report, and a vector is not tokens. Left
    // absent, the three fields that did not happen would make every embedding call `Partial` and
    // every ledger total a floor for good.
    let usage = Usage::embedding(1_500);
    assert_eq!(usage.coverage(), UsageCoverage::Exact);
    assert_eq!(usage.prompt_tokens(), Some(1_500));
    assert_eq!(usage.output_tokens, Some(0));
}

#[test]
fn an_embedding_nobody_measured_is_still_absent() {
    // The constructor is for a reported number. A provider that got none uses `absent`, and zero
    // is not a substitute for it here any more than anywhere else.
    assert_eq!(Usage::absent().coverage(), UsageCoverage::Absent);
    assert_eq!(Usage::embedding(0).coverage(), UsageCoverage::Exact);
}

#[test]
fn merging_is_the_same_in_either_order() {
    let a = Usage::absent().with_input(3).estimating();
    let b = full();
    let c = Usage::absent().with_output(u64::MAX);
    assert_eq!(a.merge(b), b.merge(a));
    assert_eq!(a.merge(b).merge(c), a.merge(b.merge(c)));
    assert_eq!(b.merge(c).output_tokens, Some(u64::MAX));
}

#[test]
fn a_price_file_may_write_a_row_as_a_list() {
    let book = PriceBook::parse(
        "id = \"b\"\nprovider = \"p\"\neffective_from = \"2026-01-01\"\nsource = \"docs\"\nverified_at = \"2026-01-01\"\ncurrency = \"USD\"\nprice = [[\"m\", \"3.00\", \"15.00\", \"0.30\"], { model = \"n\", input = \"1\", output = \"2\" }]\n",
    )
    .unwrap();
    assert_eq!(
        book.rate(&"m".into()),
        Some(&Rate {
            input: Micros(3_000_000),
            output: Micros(15_000_000),
            cache_read: Micros(300_000),
            cache_write: Micros(0),
        })
    );
    assert_eq!(book.rate(&"n".into()).map(|rate| rate.output), Some(Micros(2_000_000)));
}
