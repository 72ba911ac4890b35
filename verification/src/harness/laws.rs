//! What holds of simulator tests: what their attribute asks for, and the runs they stand for.

use crate::harness::attribute::{
    are_answered, attribute_of, is_attribute_of, is_ignored, is_test_of, lower_case, ArgView,
    AttrView, ErrorView, QuestionView, SaidView, TestSpec,
};
use crate::harness::plan::{
    law_seeds_of_a_round_are_consecutive, repeat_error, round_runs, rounds_of, sound_configs, total,
    PlanError, Run, TestPlan,
};
use vstd::prelude::*;

verus! {

/// The argument sets `key`, in whatever case: it is `key = ..`.
pub open spec fn sets(arg: ArgView, key: Seq<char>) -> bool {
    arg matches ArgView::NameValue(Some(name), _) && lower_case(name) == key
}

/// The argument is the bare word `key`, in whatever case.
pub open spec fn is_word(arg: ArgView, key: Seq<char>) -> bool {
    arg matches ArgView::Path(Some(name)) && lower_case(name) == key
}

/// The value of the argument, if it is a string.
pub open spec fn value_of(arg: ArgView) -> Option<Seq<char>> {
    match arg {
        ArgView::NameValue(_, value) => value,
        _ => None,
    }
}

/// There is nothing wrong with the argument by itself: it is one that is known, and its value is
/// what it has to be.
pub open spec fn is_sound(arg: ArgView, said: SaidView) -> bool {
    ||| sets(arg, "worker_threads"@) || sets(arg, "flavor"@) || sets(arg, "start_paused"@)
    ||| sets(arg, "no_client_node"@)
    ||| sets(arg, "config"@) && value_of(arg) is Some && said.expr_error is None
    ||| sets(arg, "crate"@) && value_of(arg) is Some && said.ident is Some
    ||| is_word(arg, "check_determinism"@)
}

/// The keys are all different.
proof fn lemma_keys_differ()
    ensures
        "config"@ != "crate"@,
        "config"@ != "no_client_node"@,
        "crate"@ != "no_client_node"@,
        !is_ignored("config"@),
        !is_ignored("crate"@),
        !is_ignored("no_client_node"@),
{
    reveal_strlit("config");
    reveal_strlit("crate");
    reveal_strlit("no_client_node");
    reveal_strlit("worker_threads");
    reveal_strlit("flavor");
    reveal_strlit("start_paused");
    assert("no_client_node"@[0] == 'n' && "worker_threads"@[0] == 'w');
    assert("config"@[0] == 'c' && "crate"@[0] == 'c' && "flavor"@[0] == 'f');
    assert("start_paused"@[0] == 's');
    assert("config"@[1] == 'o' && "crate"@[1] == 'r');
}

/// `attr` asks for what `args` say: for a run outside of a client node if and only if
/// `no_client_node` is among them, for a determinism check if and only if `check_determinism` is,
/// for the configuration that was given last, and for the crate that was given.
pub open spec fn asks_for_what_is_said(attr: AttrView, args: Seq<ArgView>, said: Seq<SaidView>) -> bool {
    &&& !attr.run_in_client_node <==> exists|i: int|
        0 <= i < args.len() && sets(#[trigger] args[i], "no_client_node"@)
    &&& attr.check_determinism <==> exists|i: int|
        0 <= i < args.len() && is_word(#[trigger] args[i], "check_determinism"@)
    &&& attr.network_config_expr is None <==> forall|i: int|
        0 <= i < args.len() ==> !sets(#[trigger] args[i], "config"@)
    &&& forall|i: int|
        0 <= i < args.len() && sets(#[trigger] args[i], "config"@) && (forall|j: int|
            i < j < args.len() ==> !sets(#[trigger] args[j], "config"@))
            ==> attr.network_config_expr == value_of(args[i])
    &&& attr.crate_name is None <==> forall|i: int|
        0 <= i < args.len() ==> !sets(#[trigger] args[i], "crate"@)
    &&& forall|i: int|
        0 <= i < args.len() && sets(#[trigger] args[i], "crate"@) ==> attr.crate_name
            == said[i].ident
    &&& forall|i: int, j: int|
        0 <= i < j < args.len() && sets(#[trigger] args[i], "crate"@) ==> !sets(
            #[trigger] args[j],
            "crate"@,
        )
}

/// An argument that is read changes what it is for, and nothing else: `no_client_node` whether the
/// test runs in a client node, `check_determinism` whether it is checked, `config` and `crate` what
/// they give.
pub proof fn law_argument_changes_what_it_is_for(
    attr: AttrView,
    arg: ArgView,
    said: SaidView,
    after: AttrView,
)
    requires
        attr.with_arg(arg, said) == Ok::<AttrView, ErrorView>(after),
    ensures
        after.run_in_client_node <==> attr.run_in_client_node && !sets(arg, "no_client_node"@),
        after.check_determinism <==> attr.check_determinism || is_word(arg, "check_determinism"@),
        sets(arg, "config"@) ==> after.network_config_expr == value_of(arg)
            && after.network_config_expr is Some,
        !sets(arg, "config"@) ==> after.network_config_expr == attr.network_config_expr,
        sets(arg, "crate"@) ==> after.crate_name == said.ident && after.crate_name is Some,
        !sets(arg, "crate"@) ==> after.crate_name == attr.crate_name,
{
    lemma_keys_differ();
}

/// If the arguments are read without error, each of them has its effect wherever it stands, and no
/// other: the test runs outside of a client node if and only if `no_client_node` is among them, it
/// is checked for determinism if and only if `check_determinism` is, the configuration is the one
/// that was given last, if any was, and the crate is the only one that was given, if one was.
pub proof fn law_each_argument_has_its_effect_anywhere(
    args: Seq<ArgView>,
    said: Seq<SaidView>,
    attr: AttrView,
)
    requires
        attribute_of(args, said) == Ok::<AttrView, ErrorView>(attr),
    ensures
        asks_for_what_is_said(attr, args, said),
        forall|i: int| 0 <= i < args.len() ==> is_sound(#[trigger] args[i], said[i]),
    decreases args.len(),
{
    lemma_keys_differ();
    if args.len() > 0 {
        let front = args.drop_last();
        let n = args.len() - 1;
        let last = args[n];
        let before = attribute_of(front, said)->Ok_0;
        law_each_argument_has_its_effect_anywhere(front, said, before);
        assert(before.with_arg(last, said[n]) == Ok::<AttrView, ErrorView>(attr));
        assert forall|i: int| 0 <= i < args.len() implies is_sound(#[trigger] args[i], said[i]) by {
            if i < n {
                assert(front[i] == args[i]);
            }
        }
        if !attr.run_in_client_node && !sets(last, "no_client_node"@) {
            let i: int = choose|i: int|
                0 <= i < front.len() && sets(#[trigger] front[i], "no_client_node"@);
            assert(sets(args[i], "no_client_node"@));
        }
        if !attr.run_in_client_node && sets(last, "no_client_node"@) {
            assert(sets(args[n], "no_client_node"@));
        }
        assert forall|i: int|
            0 <= i < args.len() && sets(#[trigger] args[i], "no_client_node"@) implies
            !attr.run_in_client_node by {
            if i < n {
                assert(sets(front[i], "no_client_node"@));
            }
        }
        if attr.check_determinism && !is_word(last, "check_determinism"@) {
            let i: int = choose|i: int|
                0 <= i < front.len() && is_word(#[trigger] front[i], "check_determinism"@);
            assert(is_word(args[i], "check_determinism"@));
        }
        if attr.check_determinism && is_word(last, "check_determinism"@) {
            assert(is_word(args[n], "check_determinism"@));
        }
        assert forall|i: int|
            0 <= i < args.len() && is_word(#[trigger] args[i], "check_determinism"@) implies
            attr.check_determinism by {
            if i < n {
                assert(is_word(front[i], "check_determinism"@));
            }
        }
        assert forall|i: int| 0 <= i < args.len() && attr.network_config_expr is None implies !sets(
            #[trigger] args[i],
            "config"@,
        ) by {
            if i < n {
                assert(!sets(front[i], "config"@));
            }
        }
        if attr.network_config_expr is Some {
            if sets(last, "config"@) {
                assert(sets(args[n], "config"@));
            } else {
                let i: int = choose|i: int|
                    0 <= i < front.len() && sets(#[trigger] front[i], "config"@);
                assert(sets(args[i], "config"@));
            }
        }
        assert forall|i: int|
            0 <= i < args.len() && sets(#[trigger] args[i], "config"@) && (forall|j: int|
                i < j < args.len() ==> !sets(#[trigger] args[j], "config"@)) implies
            attr.network_config_expr == value_of(args[i]) by {
            if i < n {
                assert(!sets(args[n], "config"@));
                assert(sets(front[i], "config"@));
                assert forall|j: int| i < j < front.len() implies !sets(
                    #[trigger] front[j],
                    "config"@,
                ) by {
                    assert(!sets(args[j], "config"@));
                }
            }
        }
        assert forall|i: int| 0 <= i < args.len() && attr.crate_name is None implies !sets(
            #[trigger] args[i],
            "crate"@,
        ) by {
            if i < n {
                assert(!sets(front[i], "crate"@));
            }
        }
        if attr.crate_name is Some {
            if sets(last, "crate"@) {
                assert(sets(args[n], "crate"@));
            } else {
                let i: int = choose|i: int|
                    0 <= i < front.len() && sets(#[trigger] front[i], "crate"@);
                assert(sets(args[i], "crate"@));
            }
        }
        assert forall|i: int| 0 <= i < args.len() && sets(#[trigger] args[i], "crate"@) implies
            attr.crate_name == said[i].ident by {
            if i < n {
                assert(sets(front[i], "crate"@));
                assert(is_sound(front[i], said[i]));
                assert(before.crate_name is Some);
            }
        }
        assert forall|i: int, j: int|
            0 <= i < j < args.len() && sets(#[trigger] args[i], "crate"@) implies !sets(
            #[trigger] args[j],
            "crate"@,
        ) by {
            assert(sets(front[i], "crate"@));
            assert(is_sound(front[i], said[i]));
            if j < n {
                assert(front[j] == args[j]);
            }
        }
    }
}

/// The arguments are read without error if there is nothing wrong with any of them and `crate` is
/// given at most once, in whatever order they stand.
pub proof fn law_sound_arguments_are_read(args: Seq<ArgView>, said: Seq<SaidView>)
    requires
        forall|i: int| 0 <= i < args.len() ==> is_sound(#[trigger] args[i], said[i]),
        forall|i: int, j: int|
            0 <= i < j < args.len() && sets(#[trigger] args[i], "crate"@) ==> !sets(
                #[trigger] args[j],
                "crate"@,
            ),
    ensures
        attribute_of(args, said) is Ok,
    decreases args.len(),
{
    lemma_keys_differ();
    if args.len() > 0 {
        let front = args.drop_last();
        let n = args.len() - 1;
        assert forall|i: int| 0 <= i < front.len() implies is_sound(#[trigger] front[i], said[i]) by {
            assert(is_sound(args[i], said[i]));
        }
        assert forall|i: int, j: int|
            0 <= i < j < front.len() && sets(#[trigger] front[i], "crate"@) implies !sets(
            #[trigger] front[j],
            "crate"@,
        ) by {
            assert(sets(args[i], "crate"@) && !sets(args[j], "crate"@));
        }
        law_sound_arguments_are_read(front, said);
        let before = attribute_of(front, said)->Ok_0;
        law_each_argument_has_its_effect_anywhere(front, said, before);
        assert(is_sound(args[n], said[n]));
        if sets(args[n], "crate"@) {
            assert forall|i: int| 0 <= i < front.len() implies !sets(#[trigger] front[i], "crate"@) by {
                if sets(args[i], "crate"@) {
                    assert(!sets(args[n], "crate"@));
                }
            }
        }
    }
}

/// What is wrong with an argument is told: which it is, and what there should have been.
pub proof fn law_what_is_wrong_is_told(attr: AttrView, arg: ArgView, said: SaidView)
    ensures
        ({
            let r = attr.with_arg(arg, said);
            &&& r is Ok <==> is_sound(arg, said) && !(sets(arg, "crate"@) && attr.crate_name
                is Some)
            &&& arg is Other ==> r == Err::<AttrView, ErrorView>(ErrorView::UnknownForm)
            &&& (arg == ArgView::Path(None) || (arg matches ArgView::NameValue(name, _) && name
                is None)) ==> r == Err::<AttrView, ErrorView>(ErrorView::MissingIdent)
            &&& sets(arg, "crate"@) && attr.crate_name is Some ==> r == Err::<AttrView, ErrorView>(
                ErrorView::CrateSetTwice,
            )
            &&& sets(arg, "crate"@) && attr.crate_name is None && value_of(arg) is None ==> r
                == Err::<AttrView, ErrorView>(ErrorView::CrateNotString)
            &&& sets(arg, "crate"@) && attr.crate_name is None && value_of(arg) is Some
                && said.ident is None ==> r == Err::<AttrView, ErrorView>(
                ErrorView::NotAnIdent(value_of(arg)->0),
            )
            &&& sets(arg, "config"@) && value_of(arg) is None ==> r == Err::<AttrView, ErrorView>(
                ErrorView::ExpectedString,
            )
            &&& sets(arg, "config"@) && value_of(arg) is Some && said.expr_error is Some ==> r
                == Err::<AttrView, ErrorView>(ErrorView::InvalidExpr(said.expr_error->0))
            &&& arg matches ArgView::NameValue(Some(name), _) ==> (r matches Err(
                ErrorView::UnknownNameValue(told),
            ) ==> told == lower_case(name))
            &&& (is_word(arg, "threaded_scheduler"@) || is_word(arg, "multi_thread"@)) ==> r
                == Err::<AttrView, ErrorView>(ErrorView::SetFlavor("multi_thread"@))
            &&& (is_word(arg, "basic_scheduler"@) || is_word(arg, "current_thread"@) || is_word(
                arg,
                "single_threaded"@,
            )) ==> r == Err::<AttrView, ErrorView>(ErrorView::SetFlavor("current_thread"@))
            &&& is_word(arg, "flavor"@) ==> r == Err::<AttrView, ErrorView>(
                ErrorView::RequiresArgument("flavor"@),
            )
            &&& is_word(arg, "worker_threads"@) ==> r == Err::<AttrView, ErrorView>(
                ErrorView::RequiresArgument("worker_threads"@),
            )
            &&& is_word(arg, "start_paused"@) ==> r == Err::<AttrView, ErrorView>(
                ErrorView::RequiresArgument("start_paused"@),
            )
        }),
{
    lemma_keys_differ();
    reveal_strlit("check_determinism");
    reveal_strlit("threaded_scheduler");
    reveal_strlit("multi_thread");
    reveal_strlit("basic_scheduler");
    reveal_strlit("current_thread");
    reveal_strlit("single_threaded");
    reveal_strlit("flavor");
    reveal_strlit("worker_threads");
    reveal_strlit("start_paused");
    assert("check_determinism"@.len() == 17 && "threaded_scheduler"@.len() == 18
        && "multi_thread"@.len() == 12 && "basic_scheduler"@.len() == 15
        && "current_thread"@.len() == 14 && "single_threaded"@.len() == 15 && "flavor"@.len() == 6
        && "worker_threads"@.len() == 14 && "start_paused"@.len() == 12);
    assert("current_thread"@[0] == 'c' && "worker_threads"@[0] == 'w');
    assert("multi_thread"@[0] == 'm' && "start_paused"@[0] == 's');
}

/// A parser is asked whether the value of a `config` is an expression, and which identifier that of
/// a `crate` is, where they are strings, and nothing else.
pub proof fn law_only_values_that_matter_are_asked_of(arg: ArgView, text: Seq<char>)
    ensures
        arg.question() == QuestionView::Expr(text) <==> sets(arg, "config"@) && value_of(arg)
            == Some(text),
        arg.question() == QuestionView::Ident(text) <==> sets(arg, "crate"@) && value_of(arg)
            == Some(text),
        arg.question() is Nothing <==> value_of(arg) is None || (!sets(arg, "config"@) && !sets(
            arg,
            "crate"@,
        )),
{
    lemma_keys_differ();
}

/// Settings that are accepted without effect are named in lower case: `worker_threads`, `flavor` and
/// `start_paused`, if they are given a value, and no others.
pub proof fn law_settings_without_effect_are_named(attr: AttrView, arg: ArgView, said: SaidView)
    ensures
        arg.ignored() is Some <==> sets(arg, "worker_threads"@) || sets(arg, "flavor"@) || sets(
            arg,
            "start_paused"@,
        ),
        arg.ignored() matches Some(name) ==> sets(arg, name) && attr.with_arg(arg, said) == Ok::<
            AttrView,
            ErrorView,
        >(attr),
{
}

/// A text holds another one.
pub open spec fn holds(text: Seq<char>, part: Seq<char>) -> bool {
    exists|i: int|
        0 <= i <= text.len() - part.len() && #[trigger] text.subrange(i, i + part.len()) == part
}

/// What the user is told names what is wrong: the name or the value that was found, the flavor that
/// should have been set, and what a parser has said about an expression is told as it is.
pub proof fn law_message_names_what_is_wrong(err: ErrorView)
    ensures
        err matches ErrorView::UnknownNameValue(name) ==> holds(err.message(), name),
        err matches ErrorView::UnknownPath(name) ==> holds(err.message(), name),
        err matches ErrorView::RequiresArgument(name) ==> holds(err.message(), name),
        err matches ErrorView::NotAnIdent(value) ==> holds(err.message(), value),
        err matches ErrorView::SetFlavor(flavor) ==> holds(err.message(), flavor),
        err matches ErrorView::InvalidExpr(said) ==> err.message() == said,
{
    match err {
        ErrorView::UnknownNameValue(name) | ErrorView::UnknownPath(name) => {
            let i = "Unknown attribute "@.len() as int;
            assert(err.message().subrange(i, i + name.len()) =~= name);
        },
        ErrorView::RequiresArgument(name) => {
            let i = "The `"@.len() as int;
            assert(err.message().subrange(i, i + name.len()) =~= name);
        },
        ErrorView::NotAnIdent(value) => {
            let i = "Failed to parse value of `crate` as ident: \""@.len() as int;
            assert(err.message().subrange(i, i + value.len()) =~= value);
        },
        ErrorView::SetFlavor(flavor) => {
            let i = ("Set the runtime flavor with #["@ + "test"@ + "(flavor = \""@).len() as int;
            assert(err.message().subrange(i, i + flavor.len()) =~= flavor);
        },
        _ => {},
    }
}

/// A test that was read runs outside of a client node if and only if `no_client_node` is among its
/// arguments, wherever it stands, and is checked for determinism if and only if `check_determinism`
/// is. Its configuration is the one that was given last, or else the default of its crate; its crate
/// is `msim` if none was given.
pub proof fn law_test_stands_for_its_arguments(test: TestSpec, args: Seq<ArgView>)
    requires
        is_test_of(test, args),
    ensures
        !test.run_in_client_node <==> exists|i: int|
            0 <= i < args.len() && sets(#[trigger] args[i], "no_client_node"@),
        test.check_determinism <==> exists|i: int|
            0 <= i < args.len() && is_word(#[trigger] args[i], "check_determinism"@),
        forall|i: int|
            0 <= i < args.len() && sets(#[trigger] args[i], "config"@) && (forall|j: int|
                i < j < args.len() ==> !sets(#[trigger] args[j], "config"@)) ==> Some(
                test.config_expr@,
            ) == value_of(args[i]),
        (forall|i: int| 0 <= i < args.len() ==> !sets(#[trigger] args[i], "config"@))
            ==> test.config_expr@ == test.crate_name@ + "::SimConfig::default()"@,
        (forall|i: int| 0 <= i < args.len() ==> !sets(#[trigger] args[i], "crate"@))
            ==> test.crate_name@ == "msim"@,
{
    let attr = choose|attr: AttrView|
        #[trigger] test.is_for(attr) && is_attribute_of(Ok(attr), args);
    let said = choose|said: Seq<SaidView>|
        said.len() <= args.len() && #[trigger] are_answered(args.take(said.len() as int), said)
            && Ok::<AttrView, ErrorView>(attr) == attribute_of(args.take(said.len() as int), said)
            && (said.len() == args.len() || Ok::<AttrView, ErrorView>(attr) is Err);
    assert(args.take(said.len() as int) =~= args);
    law_each_argument_has_its_effect_anywhere(args, said, attr);
    assert forall|i: int|
        0 <= i < args.len() && sets(#[trigger] args[i], "config"@) && (forall|j: int|
            i < j < args.len() ==> !sets(#[trigger] args[j], "config"@)) implies Some(
        test.config_expr@,
    ) == value_of(args[i]) by {
        assert(is_sound(args[i], said[i]));
        lemma_keys_differ();
    }
}

/// To check determinism takes at least two rounds; otherwise there are as many as were asked for.
pub proof fn law_check_takes_two_rounds(count: u64, check: bool)
    ensures
        rounds_of(count, check) >= count,
        check ==> rounds_of(count, check) >= 2,
        !check || count >= 2 ==> rounds_of(count, check) == count,
        check && count < 2 ==> rounds_of(count, check) == 2,
{
}

/// The numbers of runs add up, configuration by configuration.
pub proof fn law_runs_add_up(repeats: Seq<usize>, more: Seq<usize>, one: usize)
    ensures
        total(seq![one]) == one,
        total(Seq::<usize>::empty()) == 0,
        total(repeats + more) == total(repeats) + total(more),
    decreases more.len(),
{
    assert(seq![one].drop_last() =~= Seq::empty());
    assert(seq![one].last() == one);
    assert(total(Seq::<usize>::empty()) == 0);
    assert(total(seq![one].drop_last()) == 0);
    if more.len() == 0 {
        assert(repeats + more =~= repeats);
    } else {
        law_runs_add_up(repeats, more.drop_last(), one);
        assert((repeats + more).drop_last() =~= repeats + more.drop_last());
    }
}

/// Each configuration is run as often as it says, in the order in which they stand: its runs come
/// after those of all configurations before it, and before those of all after it.
pub proof fn law_each_configuration_is_run_as_often_as_it_says(
    seed: int,
    repeats: Seq<usize>,
    config: int,
    k: int,
)
    requires
        0 <= seed,
        seed + total(repeats) <= u64::MAX,
        0 <= config < repeats.len() <= usize::MAX,
        0 <= k < repeats[config],
    ensures
        ({
            let i = total(repeats.take(config)) + k;
            &&& i < round_runs(seed, repeats).len()
            &&& round_runs(seed, repeats)[i] == (Run { seed: (seed + i) as u64, config: config as usize })
        }),
        round_runs(seed, repeats).len() == total(repeats),
    decreases repeats.len(),
{
    let before = repeats.drop_last();
    lemma_rounds_have_all_runs(seed, repeats);
    lemma_rounds_have_all_runs(seed, before);
    if config < repeats.len() - 1 {
        assert(before.take(config) =~= repeats.take(config));
        law_each_configuration_is_run_as_often_as_it_says(seed, before, config, k);
    } else {
        assert(before =~= repeats.take(config));
    }
}

proof fn lemma_rounds_have_all_runs(seed: int, repeats: Seq<usize>)
    ensures
        round_runs(seed, repeats).len() == total(repeats),
    decreases repeats.len(),
{
    if repeats.len() > 0 {
        lemma_rounds_have_all_runs(seed, repeats.drop_last());
    }
}

/// A configuration is wrong if it is not to be run at all, and, where determinism is checked, if it
/// is to be run more than once.
pub proof fn law_wrong_repeats_are_told(check: bool, repeat: usize)
    ensures
        repeat == 0 ==> repeat_error(check, repeat) == Some(PlanError::ZeroRepeats),
        repeat > 1 && check ==> repeat_error(check, repeat) == Some(PlanError::Repeated),
        repeat == 1 || (repeat > 1 && !check) ==> repeat_error(check, repeat) is None,
{
}

/// A round goes wrong if and only if one of its configurations does, or determinism is checked with
/// more or less than one. All configurations before the first wrong one are run, and none after it.
pub proof fn law_round_stops_at_the_first_wrong_configuration(
    plan: TestPlan,
    repeats: Seq<usize>,
    first: int,
)
    requires
        0 <= first <= repeats.len(),
        forall|i: int|
            0 <= i < first ==> (#[trigger] repeats[i]) != 0 && (plan.check ==> repeats[i] == 1),
        first < repeats.len() ==> repeats[first] == 0 || (plan.check && repeats[first] != 1),
    ensures
        plan.check && repeats.len() != 1 ==> plan.round(repeats) == (
            Seq::<Run>::empty(),
            Some(PlanError::Repeated),
        ),
        !plan.check || repeats.len() == 1 ==> {
            let (runs, err) = plan.round(repeats);
            &&& runs == round_runs(plan.seed as int, repeats.take(first))
            &&& runs.len() == total(repeats.take(first))
            &&& first == repeats.len() ==> err is None
            &&& first < repeats.len() && repeats[first] == 0 ==> err == Some(
                PlanError::ZeroRepeats,
            )
            &&& first < repeats.len() && repeats[first] != 0 ==> err == Some(PlanError::Repeated)
        },
{
    lemma_sound_before(plan.check, repeats, first, repeats.len() as int);
    assert(repeats.take(repeats.len() as int) =~= repeats);
    lemma_rounds_have_all_runs(plan.seed as int, repeats.take(first));
}

proof fn lemma_sound_before(check: bool, repeats: Seq<usize>, first: int, n: int)
    requires
        0 <= first <= repeats.len(),
        0 <= n <= repeats.len(),
        forall|i: int|
            0 <= i < first ==> (#[trigger] repeats[i]) != 0 && (check ==> repeats[i] == 1),
        first < repeats.len() ==> repeats[first] == 0 || (check && repeats[first] != 1),
    ensures
        sound_configs(check, repeats.take(n)) == (if n < first {
            n
        } else {
            first
        }),
    decreases n,
{
    if n > 0 {
        lemma_sound_before(check, repeats, first, n - 1);
        assert(repeats.take(n).drop_last() =~= repeats.take(n - 1));
        assert(repeats.take(n).last() == repeats[n - 1]);
    }
}

/// The next round has one round less before it. Its seeds go on where those of the last one ended,
/// unless determinism is checked: then they are the same.
pub proof fn law_next_round_goes_on(plan: TestPlan, runs: nat)
    requires
        plan.rounds > 0,
        plan.seed + runs <= u64::MAX,
    ensures
        plan.after_round(runs).rounds == plan.rounds - 1,
        plan.after_round(runs).check == plan.check,
        plan.check ==> plan.after_round(runs).seed == plan.seed,
        !plan.check ==> plan.after_round(runs).seed == plan.seed + runs,
{
}

/// No two runs of a round have the same seed.
pub proof fn law_no_seed_is_used_twice_in_a_round(seed: int, repeats: Seq<usize>, i: int, j: int)
    requires
        0 <= seed,
        seed + total(repeats) <= u64::MAX,
        0 <= i < j < round_runs(seed, repeats).len(),
    ensures
        round_runs(seed, repeats)[i].seed < round_runs(seed, repeats)[j].seed,
{
    law_seeds_of_a_round_are_consecutive(seed, repeats, i);
    law_seeds_of_a_round_are_consecutive(seed, repeats, j);
}

} // verus!
