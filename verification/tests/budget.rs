use llmr::budget::{Budget, Purse, Refusal, Unpriced};
use llmr::cost::pricing::{Micros, Rate};

fn five() -> Budget {
    Budget::of(Micros(5_000_000), "USD")
}

#[test]
fn a_budget_refuses_what_it_cannot_check_unless_told_otherwise() {
    // A cap that cannot be checked is not a cap, and this is the only setting under which "this
    // run spent at most five dollars" is a sentence anybody should believe.
    assert_eq!(five().unpriced(), Unpriced::Refused);
    assert_eq!(five().allowing_unpriced().unpriced(), Unpriced::Allowed);
    assert_eq!(five().cap(), Micros(5_000_000));
    assert_eq!(five().currency(), "USD");
}

#[test]
fn what_is_left_never_goes_below_zero() {
    // A negative remainder would compare as "room for a small call" in exactly the arithmetic
    // that is supposed to stop one.
    let mut purse = Purse::default();
    purse.spend(Micros(9_000_000));
    assert_eq!(purse.remaining(Micros(5_000_000)), Micros(0));
}

#[test]
fn the_most_a_reply_can_cost_is_an_upper_bound_rather_than_a_guess() {
    // Safe to refuse on, because no reply is longer than the limit it was given and every token
    // is counted at the dearest of the four rates it could be billed at.
    let rate = Rate {
        output: Micros(15_000_000),
        ..Rate::default()
    };
    assert_eq!(
        Budget::most_a_reply_can_cost(1_000_000, &rate),
        Micros(15_000_000)
    );
    assert_eq!(Budget::most_a_reply_can_cost(1_000, &rate), Micros(15_000));
}

#[test]
fn spending_says_whether_it_is_the_whole_figure() {
    let mut purse = Purse::default();
    purse.spend(Micros(1_000_000));
    assert!(purse.spending(&five()).is_exact());

    purse.unmeasured();
    let spending = purse.spending(&five());
    assert!(!spending.is_exact());
    assert_eq!(spending.spent, Micros(1_000_000), "what is known is known");
    assert_eq!(spending.remaining, Micros(4_000_000));
}

#[test]
fn a_call_priced_later_stops_counting_as_unmeasured() {
    // A streamed call whose transcript the caller has since read.
    let mut purse = Purse::default();
    purse.unmeasured();
    purse.measured_after_all();
    assert!(purse.spending(&five()).is_exact());

    // And the count never wraps past zero, which would read as an enormous number of unmeasured
    // calls on a run that had none.
    purse.measured_after_all();
    assert_eq!(purse.spending(&five()).unmeasured, 0);
}

#[test]
fn a_budget_refuses_before_the_money_goes() {
    let rate = Rate {
        output: Micros(15_000_000),
        ..Rate::default()
    };
    let dollars = Some((&rate, "USD"));
    let mut purse = Purse::default();
    assert_eq!(five().refuses(&purse, None, dollars), None);
    // 333,333 tokens come to just under five, and one more to just over.
    assert_eq!(five().refuses(&purse, Some(333_333), dollars), None);
    assert_eq!(
        five().refuses(&purse, Some(333_334), dollars),
        Some(Refusal::CouldOverrun)
    );
    assert_eq!(
        five().refuses(&purse, None, Some((&rate, "EUR"))),
        Some(Refusal::OtherCurrency)
    );
    assert_eq!(
        five().refuses(&purse, None, None),
        Some(Refusal::Unpriced)
    );
    assert_eq!(
        five().allowing_unpriced().refuses(&purse, Some(9), None),
        None
    );
    purse.spend(Micros(5_000_000));
    assert_eq!(
        five().refuses(&purse, Some(1), dollars),
        Some(Refusal::Spent)
    );
    assert_eq!(
        five().allowing_unpriced().refuses(&purse, None, None),
        Some(Refusal::Spent)
    );
}
