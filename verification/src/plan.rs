//! Building the strategies that one option of the command line configures,
//! and holding them against the signature of the expected arrivals.

use vstd::prelude::*;
use crate::config::{
    base_index_of, method_named, range_of, DataOverride, NetworkProtocol, Strategy,
};
use crate::stack::{method_feasible, ResultPacket, StrategyStack};
use crate::text::{
    char_views, chars_are, chars_contain, chars_of, contains_run, fields, split_chars, string_of,
};

verus! {

/// One strategy to be built: the name of its method, its offset expression
/// and whether one is to be subtracted from its offset.
pub struct Planned {
    pub method: Seq<char>,
    pub offset: Seq<char>,
    pub subtract: bool,
}

/// Why the strategies of an option cannot be configured.
#[derive(Debug, Clone, Copy, PartialEq, Eq, Structural)]
pub enum StrategyError {
    /// A strategy is named without a value for its offset.
    MissingValue,
    /// An offset does not fit the field that holds it.
    OffsetOutOfRange,
    /// The signature of the expected arrivals does not allow a strategy.
    StackViolated,
}

/// The method name of the option `name`: the name after two dashes.
pub open spec fn dashed(name: Seq<char>) -> Seq<char> {
    seq!['-', '-'] + name
}

/// One strategy named `name` for each of `offsets`.
pub open spec fn one_for_each(name: Seq<char>, offsets: Seq<Seq<char>>, subtract: bool) -> Seq<
    Planned,
> {
    Seq::new(
        offsets.len(),
        |i: int| Planned { method: dashed(name), offset: offsets[i], subtract },
    )
}

/// Whether the follow-up `name` can take its offsets from the base `base`:
/// a split after a disorder, or a disorder after a fake.
pub open spec fn follows(base: Seq<char>, name: Seq<char>) -> bool {
    (contains_run(base, "disorder"@) && contains_run(name, "split"@)) || (contains_run(
        base,
        "fake"@,
    ) && contains_run(name, "disorder"@))
}

/// The strategies of one follow-up. With the value `auto`, where that is
/// read, it takes each offset of the base, less one, if it can follow the
/// base, and is left out if it cannot. Any other value is its offset.
pub open spec fn follow_up(
    base: Seq<char>,
    name: Seq<char>,
    value: Seq<char>,
    offsets: Seq<Seq<char>>,
    auto: bool,
) -> Seq<Planned> {
    if auto && value == "auto"@ {
        if follows(base, name) {
            one_for_each(name, offsets, true)
        } else {
            Seq::empty()
        }
    } else {
        seq![Planned { method: dashed(name), offset: value, subtract: false }]
    }
}

/// The strategies of the follow-ups up to the `count`-th name.
pub open spec fn follow_ups(
    names: Seq<Seq<char>>,
    values: Seq<Seq<char>>,
    offsets: Seq<Seq<char>>,
    auto: bool,
    count: int,
) -> Seq<Planned>
    decreases count,
{
    if count <= 1 {
        Seq::empty()
    } else {
        follow_ups(names, values, offsets, auto, count - 1) + follow_up(
            names[0],
            names[count - 1],
            values[count - 1],
            offsets,
            auto,
        )
    }
}

/// The strategies that the names `names` and the values `values` configure:
/// the first name is the base, once for each offset of the first value, and
/// each further name is a follow-up with the value at its place.
pub open spec fn plans(names: Seq<char>, values: Seq<Seq<char>>, auto: bool) -> Seq<Planned> {
    let list = fields(names, ',');
    let offsets = fields(values[0], ',');
    one_for_each(list[0], offsets, false) + follow_ups(list, values, offsets, auto, list.len() as int)
}

/// `strategy` is what `plan` builds with the filters given.
pub open spec fn is_built(
    strategy: Strategy,
    plan: Planned,
    filter_protocol: Seq<char>,
    filter_port: Seq<char>,
    whitelist: Seq<String>,
) -> bool {
    &&& strategy.method == method_named(plan.method)
    &&& strategy.base_index == base_index_of(plan.offset, plan.subtract)
    &&& strategy.add_sni == plan.offset.contains('s')
    &&& strategy.add_host == plan.offset.contains('h')
    &&& strategy.subtract == plan.subtract
    &&& strategy.filter_protocol == Some(
        if filter_protocol == "tcp"@ {
            NetworkProtocol::TCP
        } else {
            NetworkProtocol::UDP
        },
    )
    &&& strategy.filter_port == match range_of(filter_port) {
        Ok(range) => Some(range),
        Err(_) => None,
    }
    &&& strategy.filter_sni matches Some(list) && list@ == whitelist
}

/// Each of `added` is active and built from the plan at its place.
pub open spec fn all_built(
    added: Seq<DataOverride<Strategy>>,
    planned: Seq<Planned>,
    filter_protocol: Seq<char>,
    filter_port: Seq<char>,
    whitelist: Seq<String>,
) -> bool {
    &&& added.len() == planned.len()
    &&& forall|k: int|
        0 <= k < added.len() ==> (#[trigger] added[k]).active && is_built(
            added[k].data,
            planned[k],
            filter_protocol,
            filter_port,
            whitelist,
        )
}

/// Every plan has an offset that fits.
pub open spec fn all_fit(planned: Seq<Planned>) -> bool {
    forall|k: int|
        0 <= k < planned.len() ==> Strategy::can_build(
            (#[trigger] planned[k]).offset,
            planned[k].subtract,
        )
}

/// The signature allows every strategy of the list.
pub open spec fn list_feasible(stack: Seq<ResultPacket>, list: Seq<DataOverride<Strategy>>) -> bool {
    forall|k: int| 0 <= k < list.len() ==> method_feasible(stack, (#[trigger] list[k]).data.method)
}

/// The signature allows the method of every plan.
pub open spec fn plans_feasible(stack: Seq<ResultPacket>, planned: Seq<Planned>) -> bool {
    forall|k: int|
        0 <= k < planned.len() ==> method_feasible(
            stack,
            method_named((#[trigger] planned[k]).method),
        )
}

/// What adding the strategies of one option does to the list `before`,
/// which becomes `after`, and what it answers. Too few values are an error,
/// then an offset that does not fit, then a list that the signature does
/// not allow, be it of one strategy or of many; on an error the list stays
/// as it was. Else the list is extended by what the plans build, and the
/// answer is the number of names, or 0 for a single name.
pub open spec fn strategies_added(
    before: Seq<DataOverride<Strategy>>,
    after: Seq<DataOverride<Strategy>>,
    stack: Seq<ResultPacket>,
    names: Seq<char>,
    values: Seq<Seq<char>>,
    filter_protocol: Seq<char>,
    filter_port: Seq<char>,
    whitelist: Seq<String>,
    auto: bool,
    out: Result<usize, StrategyError>,
) -> bool {
    let count = fields(names, ',').len();
    let planned = plans(names, values, auto);
    let enough = values.len() >= count;
    let allowed = list_feasible(stack, before) && plans_feasible(stack, planned);
    &&& out == Err::<usize, StrategyError>(StrategyError::MissingValue) <==> !enough
    &&& out == Err::<usize, StrategyError>(StrategyError::OffsetOutOfRange) <==> enough && !all_fit(
        planned,
    )
    &&& out == Err::<usize, StrategyError>(StrategyError::StackViolated) <==> enough && all_fit(
        planned,
    ) && !allowed
    &&& out is Err ==> after == before
    &&& out matches Ok(taken) ==> {
        &&& taken == if count == 1 {
            0
        } else {
            count
        }
        &&& after.len() == before.len() + planned.len()
        &&& after.take(before.len() as int) == before
        &&& all_built(after.skip(before.len() as int), planned, filter_protocol, filter_port, whitelist)
        &&& list_feasible(stack, after)
    }
}

/// The texts of a list of strings.
pub open spec fn string_views(list: Seq<String>) -> Seq<Seq<char>> {
    list.map_values(|s: String| s@)
}

fn copy_strings(list: &Vec<String>) -> (copy: Vec<String>)
    ensures
        copy@ == list@,
{
    let n: usize = list.len();
    let mut copy: Vec<String> = Vec::new();
    let mut i: usize = 0;
    while i < n
        invariant
            n == list@.len(),
            i <= n,
            copy@ == list@.take(i as int),
        decreases n - i,
    {
        copy.push(list[i].clone());
        i += 1;
        assert(copy@ =~= list@.take(i as int));
    }
    assert(list@.take(n as int) =~= list@);
    copy
}

fn dashed_name(name: &Vec<char>) -> (method: String)
    ensures
        method@ == dashed(name@),
{
    let mut chars: Vec<char> = Vec::new();
    chars.push('-');
    chars.push('-');
    let n: usize = name.len();
    let mut i: usize = 0;
    while i < n
        invariant
            n == name@.len(),
            i <= n,
            chars@ == dashed(name@.take(i as int)),
        decreases n - i,
    {
        chars.push(name[i]);
        i += 1;
        assert(chars@ =~= dashed(name@.take(i as int)));
    }
    assert(name@.take(n as int) =~= name@);
    string_of(&chars)
}

/// Builds one strategy named `name` for each of `offsets` and adds them to
/// `added`. Tells whether every offset fitted; where one did not, what
/// `added` then holds is of no use.
fn build_each(
    added: &mut Vec<DataOverride<Strategy>>,
    name: &Vec<char>,
    offsets: &Vec<Vec<char>>,
    subtract: bool,
    filter_protocol: &str,
    filter_port: &str,
    whitelist: &Vec<String>,
    Ghost(before): Ghost<Seq<Planned>>,
) -> (fitted: bool)
    requires
        all_built(old(added)@, before, filter_protocol@, filter_port@, whitelist@),
        all_fit(before),
    ensures
        fitted == all_fit(before + one_for_each(name@, char_views(offsets@), subtract)),
        fitted ==> all_built(
            final(added)@,
            before + one_for_each(name@, char_views(offsets@), subtract),
            filter_protocol@,
            filter_port@,
            whitelist@,
        ),
{
    let ghost each = one_for_each(name@, char_views(offsets@), subtract);
    let n: usize = offsets.len();
    let mut i: usize = 0;
    assert(before + each.take(0) =~= before);
    while i < n
        invariant
            n == offsets@.len(),
            i <= n,
            each == one_for_each(name@, char_views(offsets@), subtract),
            each.len() == n,
            all_fit(before + each.take(i as int)),
            all_built(
                added@,
                before + each.take(i as int),
                filter_protocol@,
                filter_port@,
                whitelist@,
            ),
        decreases n - i,
    {
        let method: String = dashed_name(name);
        let offset: String = string_of(&offsets[i]);
        let ghost plan = each[i as int];
        assert(plan == Planned { method: dashed(name@), offset: offsets@[i as int]@, subtract });
        let built: Option<Strategy> = Strategy::checked_from(
            method,
            offset,
            subtract,
            filter_protocol,
            filter_port,
            Some(copy_strings(whitelist)),
        );
        match built {
            None => {
                assert((before + each)[before.len() + i] == plan);
                return false;
            },
            Some(strategy) => {
                let ghost so_far = added@;
                added.push(DataOverride { active: true, data: strategy });
                assert(before + each.take(i + 1) =~= (before + each.take(i as int)).push(plan));
                assert forall|k: int| 0 <= k < added@.len() implies (#[trigger] added@[k]).active
                    && is_built(
                    added@[k].data,
                    (before + each.take(i + 1))[k],
                    filter_protocol@,
                    filter_port@,
                    whitelist@,
                ) by {
                    if k < so_far.len() {
                        assert(added@[k] == so_far[k]);
                    }
                }
            },
        }
        i += 1;
    }
    assert(each.take(n as int) =~= each);
    true
}

impl StrategyStack {
    /// Whether the signature allows every strategy of `list`.
    pub fn verify_list(&self, list: &Vec<DataOverride<Strategy>>) -> (feasible: bool)
        ensures
            feasible == list_feasible(self.stack@, list@),
    {
        let n: usize = list.len();
        let mut k: usize = 0;
        while k < n
            invariant
                n == list@.len(),
                k <= n,
                forall|j: int|
                    0 <= j < k ==> method_feasible(self.stack@, (#[trigger] list@[j]).data.method),
            decreases n - k,
        {
            if !self.allows(list[k].data.method) {
                return false;
            }
            k += 1;
        }
        true
    }
}

/// Adds to `strategies` what one option configures: the strategies named in
/// `names`, a list separated by commas, with the values `values` that
/// follow it on the command line. The whole list is then held against
/// `stack`. The result is the number of values that the follow-ups took,
/// which is 0 for a single name. On an error `strategies` stays as it was.
#[verifier::loop_isolation(false)]
pub fn add_strategies(
    strategies: &mut Vec<DataOverride<Strategy>>,
    stack: &StrategyStack,
    names: &str,
    values: &Vec<String>,
    filter_protocol: &str,
    filter_port: &str,
    whitelist: &Vec<String>,
    auto: bool,
) -> (out: Result<usize, StrategyError>)
    ensures
        strategies_added(
            old(strategies)@,
            final(strategies)@,
            stack.stack@,
            names@,
            string_views(values@),
            filter_protocol@,
            filter_port@,
            whitelist@,
            auto,
            out,
        ),
{
    let list: Vec<Vec<char>> = split_chars(&chars_of(names), ',');
    let count: usize = list.len();
    if values.len() < count {
        return Err(StrategyError::MissingValue);
    }
    let ghost texts = string_views(values@);
    let ghost name_views = char_views(list@);
    let offsets: Vec<Vec<char>> = split_chars(&chars_of(values[0].as_str()), ',');
    let ghost offset_views = char_views(offsets@);
    assert(texts[0] == values@[0]@);
    let mut added: Vec<DataOverride<Strategy>> = Vec::new();
    assert(name_views[0] == list@[0]@);
    let fitted: bool = build_each(
        &mut added,
        &list[0],
        &offsets,
        false,
        filter_protocol,
        filter_port,
        whitelist,
        Ghost(Seq::empty()),
    );
    let ghost base = one_for_each(name_views[0], offset_views, false);
    assert(Seq::<Planned>::empty() + base =~= base);
    let ghost whole = plans(names@, texts, auto);
    if !fitted {
        proof {
            let k = choose|k: int|
                0 <= k < base.len() && !Strategy::can_build(
                    (#[trigger] base[k]).offset,
                    base[k].subtract,
                );
            assert(whole[k] == base[k]);
        }
        return Err(StrategyError::OffsetOutOfRange);
    }
    let mut index: usize = 1;
    while index < count
        invariant
            count == list@.len(),
            count <= values@.len(),
            1 <= index <= count,
            name_views == char_views(list@),
            offset_views == char_views(offsets@),
            texts == string_views(values@),
            base == one_for_each(name_views[0], offset_views, false),
            whole == base + follow_ups(name_views, texts, offset_views, auto, count as int),
            all_fit(base + follow_ups(name_views, texts, offset_views, auto, index as int)),
            all_built(
                added@,
                base + follow_ups(name_views, texts, offset_views, auto, index as int),
                filter_protocol@,
                filter_port@,
                whitelist@,
            ),
        decreases count - index,
    {
        let ghost before = base + follow_ups(name_views, texts, offset_views, auto, index as int);
        let name: &Vec<char> = &list[index];
        let value: Vec<char> = chars_of(values[index].as_str());
        assert(texts[index as int] == values@[index as int]@);
        assert(name_views[index as int] == name@);
        let ghost next = follow_up(name_views[0], name@, value@, offset_views, auto);
        assert(follow_ups(name_views, texts, offset_views, auto, index + 1) == follow_ups(
            name_views,
            texts,
            offset_views,
            auto,
            index as int,
        ) + next);
        assert(base + follow_ups(name_views, texts, offset_views, auto, index + 1) =~= before
            + next);
        let fitted: bool = if auto && chars_are(&value, "auto") {
            let disorder: Vec<char> = chars_of("disorder");
            let split: Vec<char> = chars_of("split");
            let fake: Vec<char> = chars_of("fake");
            assert(name_views[0] == list@[0]@);
            if (chars_contain(&list[0], &disorder) && chars_contain(name, &split)) || (
            chars_contain(&list[0], &fake) && chars_contain(name, &disorder)) {
                assert(next == one_for_each(name@, offset_views, true));
                build_each(
                    &mut added,
                    name,
                    &offsets,
                    true,
                    filter_protocol,
                    filter_port,
                    whitelist,
                    Ghost(before),
                )
            } else {
                assert(before + next =~= before);
                true
            }
        } else {
            let mut single: Vec<Vec<char>> = Vec::new();
            single.push(value);
            assert(char_views(single@) =~= seq![value@]);
            assert(one_for_each(name@, seq![value@], false) =~= next);
            build_each(
                &mut added,
                name,
                &single,
                false,
                filter_protocol,
                filter_port,
                whitelist,
                Ghost(before),
            )
        };
        if !fitted {
            proof {
                assert(!all_fit(before + next));
                lemma_unfit_stays(name_views, texts, offset_views, auto, base, index + 1, count as int);
                assert(!all_fit(whole));
            }
            return Err(StrategyError::OffsetOutOfRange);
        }
        index += 1;
    }
    let ghost old_list = strategies@;
    let ghost new_list = added@;
    proof {
        assert forall|k: int| 0 <= k < whole.len() implies method_feasible(
            stack.stack@,
            method_named((#[trigger] whole[k]).method),
        ) == method_feasible(stack.stack@, new_list[k].data.method) by {
            assert(new_list[k].active);
        }
    }
    let mut feasible: bool = stack.verify_list(strategies);
    if feasible {
        feasible = stack.verify_list(&added);
    }
    if !feasible {
        proof {
            if list_feasible(stack.stack@, old_list) {
                let k = choose|k: int|
                    0 <= k < new_list.len() && !method_feasible(
                        stack.stack@,
                        (#[trigger] new_list[k]).data.method,
                    );
                assert(!method_feasible(stack.stack@, method_named(whole[k].method)));
            }
        }
        return Err(StrategyError::StackViolated);
    }
    assert forall|k: int| 0 <= k < new_list.len() implies method_feasible(
        stack.stack@,
        method_named((#[trigger] whole[k]).method),
    ) by {
        assert(method_feasible(stack.stack@, new_list[k].data.method));
    }
    strategies.append(&mut added);
    assert(strategies@.take(old_list.len() as int) =~= old_list);
    assert(strategies@.skip(old_list.len() as int) =~= new_list);
    assert forall|k: int| 0 <= k < strategies@.len() implies method_feasible(
        stack.stack@,
        (#[trigger] strategies@[k]).data.method,
    ) by {
        if k < old_list.len() {
            assert(strategies@[k] == old_list[k]);
        } else {
            assert(strategies@[k] == new_list[k - old_list.len()]);
        }
    }
    Ok(if count == 1 {
        0
    } else {
        count
    })
}

proof fn lemma_unfit_stays(
    names: Seq<Seq<char>>,
    values: Seq<Seq<char>>,
    offsets: Seq<Seq<char>>,
    auto: bool,
    base: Seq<Planned>,
    upto: int,
    count: int,
)
    requires
        1 <= upto <= count,
        !all_fit(base + follow_ups(names, values, offsets, auto, upto)),
    ensures
        !all_fit(base + follow_ups(names, values, offsets, auto, count)),
    decreases count - upto,
{
    if upto < count {
        let shorter = base + follow_ups(names, values, offsets, auto, count - 1);
        lemma_unfit_stays(names, values, offsets, auto, base, upto, count - 1);
        let longer = base + follow_ups(names, values, offsets, auto, count);
        let k = choose|k: int|
            0 <= k < shorter.len() && !Strategy::can_build(
                (#[trigger] shorter[k]).offset,
                shorter[k].subtract,
            );
        assert(longer[k] == shorter[k]);
    }
}

} // verus!
