use waterfall::config::{DataOverride, Strategies, Strategy};
use waterfall::plan::{add_strategies, StrategyError};
use waterfall::stack::StrategyStack;
use waterfall::text::split_chars;

fn stack(signature: &str) -> StrategyStack {
    StrategyStack::from(String::from(signature))
}

fn values(list: &[&str]) -> Vec<String> {
    list.iter().map(|v| String::from(*v)).collect()
}

fn summary(list: &Vec<DataOverride<Strategy>>) -> Vec<(Strategies, i64, bool, bool)> {
    list.iter().map(|s| (s.data.method, s.data.base_index, s.data.add_sni, s.data.subtract)).collect()
}

#[test]
fn fields_are_those_of_std() {
    for text in ["", "a", "a,b", ",", "a,,b", ",a", "a,", "1+s,5+,13+s"] {
        let chars: Vec<char> = text.chars().collect();
        let expected: Vec<Vec<char>> = text.split(",").map(|f| f.chars().collect()).collect();
        assert_eq!(split_chars(&chars, ','), expected, "{:?}", text);
    }
}

#[test]
fn base_is_built_once_for_each_offset() {
    let mut list = vec![];
    let white = vec![String::from("example.com")];
    let out = add_strategies(
        &mut list,
        &stack("xx"),
        "tcp_split",
        &values(&["1+s,5+,x"]),
        "tcp",
        "443",
        &white,
        false,
    );
    assert_eq!(out, Ok(0));
    assert_eq!(
        summary(&list),
        vec![
            (Strategies::SPLIT, 1, true, false),
            (Strategies::SPLIT, 5, false, false),
            (Strategies::SPLIT, 0, false, false),
        ]
    );
    for strategy in &list {
        assert!(strategy.active);
        assert_eq!(strategy.data.filter_sni, Some(white.clone()));
        assert_eq!(
            strategy.data,
            Strategy::from(
                String::from("--tcp_split"),
                String::from(if strategy.data.base_index == 1 {
                    "1+s"
                } else if strategy.data.base_index == 5 {
                    "5+"
                } else {
                    "x"
                }),
                false,
                "tcp",
                "443",
                Some(white.clone()),
            )
        );
    }
}

#[test]
fn follow_ups_take_the_values_at_their_places() {
    let mut list = vec![];
    let out = add_strategies(
        &mut list,
        &stack("BA"),
        "tcp_disorder,tcp_split,tls_record_frag",
        &values(&["1+s,5+", "3+", "2+s", "unused"]),
        "tcp",
        "",
        &vec![],
        false,
    );
    assert_eq!(out, Ok(3));
    assert_eq!(
        summary(&list),
        vec![
            (Strategies::DISORDER, 1, true, false),
            (Strategies::DISORDER, 5, false, false),
            (Strategies::SPLIT, 3, false, false),
            (Strategies::FRAGTLS, 2, true, false),
        ]
    );
}

#[test]
fn auto_is_an_offset_like_any_other_where_it_is_not_read() {
    let mut list = vec![];
    let out = add_strategies(
        &mut list,
        &stack("BA"),
        "tcp_disorder,tcp_split",
        &values(&["4+", "auto"]),
        "tcp",
        "",
        &vec![],
        false,
    );
    assert_eq!(out, Ok(2));
    assert_eq!(
        summary(&list),
        vec![(Strategies::DISORDER, 4, false, false), (Strategies::SPLIT, 0, false, false)]
    );
}

#[test]
fn auto_takes_the_offsets_of_the_base_less_one() {
    let mut list = vec![];
    let out = add_strategies(
        &mut list,
        &stack("BA"),
        "tcp_disorder,tcp_split,tcp_out_of_band",
        &values(&["4+,9+s", "auto", "auto"]),
        "tcp",
        "",
        &vec![],
        true,
    );
    assert_eq!(out, Ok(3));
    assert_eq!(
        summary(&list),
        vec![
            (Strategies::DISORDER, 4, false, false),
            (Strategies::DISORDER, 9, true, false),
            (Strategies::SPLIT, 3, false, true),
            (Strategies::SPLIT, 8, true, true),
        ]
    );
    let mut list = vec![];
    let out = add_strategies(
        &mut list,
        &stack("FBA"),
        "tcp_fake_insert,tcp_disorder",
        &values(&["4+", "auto"]),
        "tcp",
        "",
        &vec![],
        true,
    );
    assert_eq!(out, Ok(2));
    assert_eq!(
        summary(&list),
        vec![(Strategies::FAKEMD, 4, false, false), (Strategies::DISORDER, 3, false, true)]
    );
}

#[test]
fn list_is_held_against_the_signature() {
    let mut list = vec![];
    let out = add_strategies(
        &mut list,
        &stack("AB"),
        "tcp_disorder,tcp_split",
        &values(&["1+", "3+"]),
        "tcp",
        "",
        &vec![],
        false,
    );
    assert_eq!(out, Err(StrategyError::StackViolated));
    assert_eq!(list, vec![]);
    let out = add_strategies(
        &mut list,
        &stack("AB"),
        "tcp_disorder",
        &values(&["1+"]),
        "tcp",
        "",
        &vec![],
        false,
    );
    assert_eq!(out, Err(StrategyError::StackViolated));
    assert_eq!(list, vec![]);
    let out = add_strategies(
        &mut list,
        &stack("BA"),
        "tcp_disorder",
        &values(&["1+"]),
        "tcp",
        "",
        &vec![],
        false,
    );
    assert_eq!(out, Ok(0));
    assert_eq!(list.len(), 1);
    let out = add_strategies(
        &mut list,
        &stack("AB"),
        "tcp_split,tcp_split",
        &values(&["1+", "3+"]),
        "tcp",
        "",
        &vec![],
        false,
    );
    assert_eq!(out, Err(StrategyError::StackViolated));
    assert_eq!(list.len(), 1);
    let out = add_strategies(
        &mut list,
        &stack(""),
        "tcp_split",
        &values(&["1+"]),
        "tcp",
        "",
        &vec![],
        false,
    );
    assert_eq!(out, Err(StrategyError::StackViolated));
    assert_eq!(list.len(), 1);
}

#[test]
fn a_name_without_a_value_is_an_error() {
    let mut list = vec![];
    let out = add_strategies(&mut list, &stack("BA"), "tcp_split", &vec![], "tcp", "", &vec![], false);
    assert_eq!(out, Err(StrategyError::MissingValue));
    let out = add_strategies(
        &mut list,
        &stack("BA"),
        "tcp_split,tcp_disorder",
        &values(&["1+"]),
        "tcp",
        "",
        &vec![],
        false,
    );
    assert_eq!(out, Err(StrategyError::MissingValue));
    assert_eq!(list, vec![]);
}

#[test]
fn an_offset_that_does_not_fit_is_an_error() {
    let mut list = vec![];
    let out = add_strategies(
        &mut list,
        &stack("BA"),
        "tcp_disorder,tcp_split",
        &values(&["-9223372036854775808+", "auto"]),
        "tcp",
        "",
        &vec![],
        true,
    );
    assert_eq!(out, Err(StrategyError::OffsetOutOfRange));
    assert_eq!(list, vec![]);
}
