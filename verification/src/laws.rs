//! Properties of the interaction state machine that span several
//! transitions, stated over the transition relation and proved once for
//! every run of the machine.

use vstd::prelude::*;

use crate::event::{Effect, InputEvent};
use crate::ui::{
    advance_col, lemma_step_preserves_wf, next_state, select_focus, values_agree_except, App,
};

verus! {

/// `states` is a run of the machine: `states[i]` steps to `states[i + 1]`
/// under `evs[i]` with page size `pages[i]`, producing effect `effs[i]`.
pub open spec fn run_steps(
    states: Seq<App>,
    evs: Seq<InputEvent>,
    pages: Seq<usize>,
    effs: Seq<Effect>,
) -> bool {
    &&& states.len() == evs.len() + 1
    &&& pages.len() == evs.len()
    &&& effs.len() == evs.len()
    &&& forall|i: int|
        0 <= i < evs.len() ==> next_state(
            #[trigger] states[i],
            evs[i],
            pages[i],
            states[i + 1],
            effs[i],
        )
}

/// Along any run from a well-formed state, every state is well formed
/// and the catalog never changes.
pub proof fn lemma_run_preserves_wf(
    states: Seq<App>,
    evs: Seq<InputEvent>,
    pages: Seq<usize>,
    effs: Seq<Effect>,
)
    requires
        run_steps(states, evs, pages, effs),
        states.len() > 0,
        states[0].wf(),
    ensures
        forall|i: int|
            0 <= i < states.len() ==> (#[trigger] states[i]).wf() && states[i].config
                == states[0].config,
    decreases evs.len(),
{
    if evs.len() > 0 {
        lemma_step_preserves_wf(states[0], evs[0], pages[0], states[1], effs[0]);
        let states2 = states.skip(1);
        let evs2 = evs.skip(1);
        let pages2 = pages.skip(1);
        let effs2 = effs.skip(1);
        assert forall|i: int| 0 <= i < evs2.len() implies next_state(
            #[trigger] states2[i],
            evs2[i],
            pages2[i],
            states2[i + 1],
            effs2[i],
        ) by {
            assert(states2[i] == states[i + 1]);
            assert(states2[i + 1] == states[i + 2]);
            assert(next_state(states[i + 1], evs[i + 1], pages[i + 1], states[i + 2], effs[i + 1]));
        }
        lemma_run_preserves_wf(states2, evs2, pages2, effs2);
        assert forall|i: int| 0 <= i < states.len() implies (#[trigger] states[i]).wf()
            && states[i].config == states[0].config by {
            if i > 0 {
                assert(states2[i - 1] == states[i]);
                assert(states2[i - 1].wf() && states2[i - 1].config == states2[0].config);
            }
        }
    }
}

/// Clamping: along any run from a well-formed state, whatever the
/// events, a column with `N > 0` actions always has a selected index
/// inside `[0, N)`, and a column without actions never gains a
/// selection.
pub proof fn lemma_clamping(
    states: Seq<App>,
    evs: Seq<InputEvent>,
    pages: Seq<usize>,
    effs: Seq<Effect>,
)
    requires
        run_steps(states, evs, pages, effs),
        states.len() > 0,
        states[0].wf(),
    ensures
        forall|i: int, c: int|
            #![trigger states[i].sel_of(c)]
            0 <= i < states.len() && 0 <= c < states[0].num_cols() ==> {
                &&& (states[0].actions_of(c).len() == 0 ==> states[i].sel_of(c) is None)
                &&& (states[0].actions_of(c).len() > 0 ==> states[i].sel_of(c) is Some && (
                states[i].sel_of(c)->0 as int) < states[0].actions_of(c).len())
            },
{
    lemma_run_preserves_wf(states, evs, pages, effs);
    assert forall|i: int, c: int|
        #![trigger states[i].sel_of(c)]
        0 <= i < states.len() && 0 <= c < states[0].num_cols() implies {
        &&& (states[0].actions_of(c).len() == 0 ==> states[i].sel_of(c) is None)
        &&& (states[0].actions_of(c).len() > 0 ==> states[i].sel_of(c) is Some && (
        states[i].sel_of(c)->0 as int) < states[0].actions_of(c).len())
    } by {
        assert(states[i].wf());
        assert(states[i].config == states[0].config);
        assert(states[i].sel_of(c) is None <==> states[i].actions_of(c).len() == 0);
    }
}

/// The column focused after `k` switch-column steps from column `f`
/// among `n` columns.
pub open spec fn advance_col_k(f: int, n: int, k: nat) -> int
    decreases k,
{
    if k == 0 {
        f
    } else {
        advance_col(advance_col_k(f, n, (k - 1) as nat), n)
    }
}

proof fn lemma_advance_col_k_linear(f: int, n: int, k: nat)
    requires
        0 <= f < n,
        k <= n,
    ensures
        advance_col_k(f, n, k) == if f + k < n {
            f + k
        } else {
            f + k - n
        },
        0 <= advance_col_k(f, n, k) < n,
    decreases k,
{
    if k > 0 {
        lemma_advance_col_k_linear(f, n, (k - 1) as nat);
    }
}

proof fn lemma_advance_col_k_shift(f: int, n: int, k: nat)
    ensures
        advance_col_k(advance_col(f, n), n, k) == advance_col_k(f, n, (k + 1) as nat),
    decreases k,
{
    if k == 0 {
        assert(advance_col_k(f, n, (k + 1) as nat) == advance_col(advance_col_k(f, n, 0), n));
    } else {
        lemma_advance_col_k_shift(f, n, (k - 1) as nat);
        assert(advance_col_k(advance_col(f, n), n, k) == advance_col(
            advance_col_k(advance_col(f, n), n, (k - 1) as nat),
            n,
        ));
        assert(advance_col_k(f, n, (k + 1) as nat) == advance_col(advance_col_k(f, n, k), n));
    }
}

proof fn lemma_switch_run(
    states: Seq<App>,
    evs: Seq<InputEvent>,
    pages: Seq<usize>,
    effs: Seq<Effect>,
)
    requires
        run_steps(states, evs, pages, effs),
        states.len() > 0,
        states[0].wf(),
        !states[0].show_details,
        forall|i: int| 0 <= i < evs.len() ==> evs[i] == InputEvent::SwitchColumn,
    ensures
        forall|i: int|
            0 <= i < states.len() ==> (#[trigger] states[i]).cur_col() == advance_col_k(
                states[0].cur_col(),
                states[0].num_cols(),
                i as nat,
            ),
    decreases evs.len(),
{
    if evs.len() > 0 {
        assert(!states[0].details_in_edit);
        assert(next_state(states[0], evs[0], pages[0], states[1], effs[0]));
        lemma_step_preserves_wf(states[0], evs[0], pages[0], states[1], effs[0]);
        assert(states[1].cur_col() == advance_col(states[0].cur_col(), states[0].num_cols()));
        assert(!states[1].show_details);
        let states2 = states.skip(1);
        let evs2 = evs.skip(1);
        let pages2 = pages.skip(1);
        let effs2 = effs.skip(1);
        assert forall|i: int| 0 <= i < evs2.len() implies next_state(
            #[trigger] states2[i],
            evs2[i],
            pages2[i],
            states2[i + 1],
            effs2[i],
        ) by {
            assert(states2[i] == states[i + 1]);
            assert(states2[i + 1] == states[i + 2]);
            assert(next_state(states[i + 1], evs[i + 1], pages[i + 1], states[i + 2], effs[i + 1]));
        }
        assert forall|i: int| 0 <= i < evs2.len() implies evs2[i] == InputEvent::SwitchColumn by {
            assert(evs2[i] == evs[i + 1]);
        }
        lemma_switch_run(states2, evs2, pages2, effs2);
        assert(states[1].num_cols() == states[0].num_cols());
        assert forall|i: int| 0 <= i < states.len() implies (#[trigger] states[i]).cur_col()
            == advance_col_k(states[0].cur_col(), states[0].num_cols(), i as nat) by {
            if i > 0 {
                assert(states2[i - 1] == states[i]);
                assert(states2[i - 1].cur_col() == advance_col_k(
                    states2[0].cur_col(),
                    states2[0].num_cols(),
                    (i - 1) as nat,
                ));
                lemma_advance_col_k_shift(
                    states[0].cur_col(),
                    states[0].num_cols(),
                    (i - 1) as nat,
                );
            }
        }
    }
}

/// Cyclic column focus: from a well-formed browsing state, a run of
/// exactly `column_count` switch-column events returns the focus to the
/// column it started on.
pub proof fn lemma_cyclic_column_focus(
    states: Seq<App>,
    evs: Seq<InputEvent>,
    pages: Seq<usize>,
    effs: Seq<Effect>,
)
    requires
        run_steps(states, evs, pages, effs),
        states.len() > 0,
        states[0].wf(),
        !states[0].show_details,
        evs.len() == states[0].num_cols(),
        forall|i: int| 0 <= i < evs.len() ==> evs[i] == InputEvent::SwitchColumn,
    ensures
        states[states.len() - 1].focused_column == states[0].focused_column,
{
    lemma_switch_run(states, evs, pages, effs);
    assert(states[states.len() - 1].cur_col() == advance_col_k(
        states[0].cur_col(),
        states[0].num_cols(),
        evs.len() as nat,
    ));
    lemma_advance_col_k_linear(states[0].cur_col(), states[0].num_cols(), evs.len() as nat);
}

/// Select cycling bounds: a left key at option 0 and a right key at the
/// last option change nothing; otherwise the option index moves by
/// exactly one.
pub proof fn lemma_select_cycling_bounds(
    pre: App,
    ev: InputEvent,
    page: usize,
    post: App,
    eff: Effect,
)
    requires
        pre.wf(),
        pre.show_details,
        !pre.details_in_edit,
        select_focus(pre),
        ev == InputEvent::Left || ev == InputEvent::Right,
        next_state(pre, ev, page, post, eff),
    ensures
        ev == InputEvent::Left && pre.psel(
            pre.cur_col(),
            pre.cur_action(),
            pre.details_focused_param as int,
        ) == 0 ==> post == pre,
        ev == InputEvent::Right && pre.psel(
            pre.cur_col(),
            pre.cur_action(),
            pre.details_focused_param as int,
        ) == pre.cur_params()[pre.details_focused_param as int].options@.len() - 1 ==> post == pre,
        ev == InputEvent::Left && pre.psel(
            pre.cur_col(),
            pre.cur_action(),
            pre.details_focused_param as int,
        ) > 0 ==> post.psel(pre.cur_col(), pre.cur_action(), pre.details_focused_param as int)
            == pre.psel(pre.cur_col(), pre.cur_action(), pre.details_focused_param as int) - 1,
        ev == InputEvent::Right && pre.psel(
            pre.cur_col(),
            pre.cur_action(),
            pre.details_focused_param as int,
        ) < pre.cur_params()[pre.details_focused_param as int].options@.len() - 1 ==> post.psel(
            pre.cur_col(),
            pre.cur_action(),
            pre.details_focused_param as int,
        ) == pre.psel(pre.cur_col(), pre.cur_action(), pre.details_focused_param as int) + 1,
{
    let c = pre.cur_col();
    let a = pre.cur_action();
    let p = pre.details_focused_param as int;
    assert(crate::ui::param_state_ok(pre.params_of(c, a)[p], pre.psel(c, a, p), pre.pval(c, a, p)));
    assert(pre.sel_of(c) is Some);
    assert(0 <= a < pre.actions_of(c).len());
    assert(pre.param_selected@[c]@[a]@.len() == pre.params_of(c, a).len());
    assert(vstd::std_specs::vec::spec_vec_len(&pre.cur_params()[p].options) == pre.cur_params()[p].options@.len());
    if ev == InputEvent::Left && pre.psel(c, a, p) > 0 {
        let ns = (pre.psel(c, a, p) - 1) as usize;
        assert(post.param_selected@[c]@[a]@ == pre.param_selected@[c]@[a]@.update(p, ns));
        assert(post.psel(c, a, p) == ns as int);
    }
    if ev == InputEvent::Right && pre.psel(c, a, p) + 1 < pre.cur_params()[p].options@.len() {
        let ns = (pre.psel(c, a, p) + 1) as usize;
        assert(ns as int == pre.psel(c, a, p) + 1);
        assert(post.param_selected@[c]@[a]@ == pre.param_selected@[c]@[a]@.update(p, ns));
        assert(post.psel(c, a, p) == ns as int);
    }
}

proof fn lemma_values_agree_trans(s0: App, s1: App, s2: App, c: int, a: int, p: int)
    requires
        values_agree_except(s0, s1, c, a, p),
        values_agree_except(s1, s2, c, a, p),
    ensures
        values_agree_except(s0, s2, c, a, p),
{
    assert forall|c2: int| 0 <= c2 < s0.param_values@.len() && c2 != c implies (
    #[trigger] s2.param_values@[c2]) == s0.param_values@[c2] by {
        assert(s1.param_values@[c2] == s0.param_values@[c2]);
    }
    assert forall|a2: int| 0 <= a2 < s0.param_values@[c]@.len() && a2 != a implies (
    #[trigger] s2.param_values@[c]@[a2]) == s0.param_values@[c]@[a2] by {
        assert(s1.param_values@[c]@[a2] == s0.param_values@[c]@[a2]);
    }
    assert forall|p2: int| 0 <= p2 < s0.param_values@[c]@[a]@.len() && p2 != p implies (
    #[trigger] s2.param_values@[c]@[a]@[p2]) == s0.param_values@[c]@[a]@[p2] by {
        assert(s1.param_values@[c]@[a]@[p2] == s0.param_values@[c]@[a]@[p2]);
    }
}

proof fn lemma_edit_session(
    states: Seq<App>,
    evs: Seq<InputEvent>,
    pages: Seq<usize>,
    effs: Seq<Effect>,
)
    requires
        run_steps(states, evs, pages, effs),
        states.len() > 0,
        states[0].wf(),
        states[0].details_in_edit,
        forall|i: int|
            0 <= i < evs.len() ==> ((#[trigger] evs[i]) matches InputEvent::Character(_) || evs[i]
                == InputEvent::Backspace),
    ensures
        forall|i: int|
            0 <= i < states.len() ==> {
                let s = #[trigger] states[i];
                &&& s.wf()
                &&& s.details_in_edit
                &&& s.config == states[0].config
                &&& s.columns == states[0].columns
                &&& s.focused_column == states[0].focused_column
                &&& s.show_details == states[0].show_details
                &&& s.details_focused_param == states[0].details_focused_param
                &&& s.details_edit_original == states[0].details_edit_original
                &&& s.param_selected == states[0].param_selected
                &&& values_agree_except(
                    states[0],
                    s,
                    states[0].cur_col(),
                    states[0].cur_action(),
                    states[0].details_focused_param as int,
                )
            },
    decreases evs.len(),
{
    let c = states[0].cur_col();
    let a = states[0].cur_action();
    let p = states[0].details_focused_param as int;
    if evs.len() > 0 {
        assert(next_state(states[0], evs[0], pages[0], states[1], effs[0]));
        lemma_step_preserves_wf(states[0], evs[0], pages[0], states[1], effs[0]);
        let states2 = states.skip(1);
        let evs2 = evs.skip(1);
        let pages2 = pages.skip(1);
        let effs2 = effs.skip(1);
        assert forall|i: int| 0 <= i < evs2.len() implies next_state(
            #[trigger] states2[i],
            evs2[i],
            pages2[i],
            states2[i + 1],
            effs2[i],
        ) by {
            assert(states2[i] == states[i + 1]);
            assert(states2[i + 1] == states[i + 2]);
            assert(next_state(states[i + 1], evs[i + 1], pages[i + 1], states[i + 2], effs[i + 1]));
        }
        assert forall|i: int| 0 <= i < evs2.len() implies ((#[trigger] evs2[i]) matches InputEvent::Character(_)
            || evs2[i] == InputEvent::Backspace) by {
            assert(evs2[i] == evs[i + 1]);
        }
        assert(states[1].cur_col() == c);
        assert(states[1].cur_action() == a);
        lemma_edit_session(states2, evs2, pages2, effs2);
        assert forall|i: int| 0 <= i < states.len() implies {
            let s = #[trigger] states[i];
            &&& s.wf()
            &&& s.details_in_edit
            &&& s.config == states[0].config
            &&& s.columns == states[0].columns
            &&& s.focused_column == states[0].focused_column
            &&& s.show_details == states[0].show_details
            &&& s.details_focused_param == states[0].details_focused_param
            &&& s.details_edit_original == states[0].details_edit_original
            &&& s.param_selected == states[0].param_selected
            &&& values_agree_except(states[0], s, c, a, p)
        } by {
            if i > 0 {
                assert(states2[i - 1] == states[i]);
                assert(values_agree_except(states2[0], states[i], c, a, p));
                lemma_values_agree_trans(states[0], states[1], states[i], c, a, p);
            }
        }
    }
}

/// Text edit round trip: entering edit on a focused text parameter,
/// typing any mix of characters and backspaces, then pressing Escape
/// cancels the edit and leaves every parameter value, the selections and
/// the whole details view exactly as they were before the edit began.
pub proof fn lemma_edit_cancel_round_trip(
    s0: App,
    page0: usize,
    eff0: Effect,
    states: Seq<App>,
    evs: Seq<InputEvent>,
    pages: Seq<usize>,
    effs: Seq<Effect>,
    pagen: usize,
    effn: Effect,
    sf: App,
)
    requires
        s0.wf(),
        s0.show_details,
        !s0.details_in_edit,
        (s0.details_focused_param as int) < s0.cur_params().len(),
        s0.cur_params()[s0.details_focused_param as int].param_type is Text,
        states.len() > 0,
        next_state(s0, InputEvent::Confirm, page0, states[0], eff0),
        run_steps(states, evs, pages, effs),
        forall|i: int|
            0 <= i < evs.len() ==> ((#[trigger] evs[i]) matches InputEvent::Character(_) || evs[i]
                == InputEvent::Backspace),
        next_state(states[states.len() - 1], InputEvent::Cancel, pagen, sf, effn),
    ensures
        sf.config == s0.config,
        sf.columns == s0.columns,
        sf.focused_column == s0.focused_column,
        sf.show_details == s0.show_details,
        sf.details_focused_param == s0.details_focused_param,
        !sf.details_in_edit,
        sf.param_selected == s0.param_selected,
        forall|c2: int, a2: int, p2: int|
            #![trigger sf.pval(c2, a2, p2)]
            0 <= c2 < s0.num_cols() && 0 <= a2 < s0.actions_of(c2).len() && 0 <= p2 < s0.params_of(
                c2,
                a2,
            ).len() ==> sf.pval(c2, a2, p2) == s0.pval(c2, a2, p2),
{
    let c = s0.cur_col();
    let a = s0.cur_action();
    let p = s0.details_focused_param as int;
    let s1 = states[0];
    lemma_step_preserves_wf(s0, InputEvent::Confirm, page0, s1, eff0);
    assert(crate::ui::begin_edit_rel(s0, s1));
    assert(s1.cur_col() == c);
    assert(s1.cur_action() == a);
    lemma_edit_session(states, evs, pages, effs);
    let sk = states[states.len() - 1];
    assert(sk.details_in_edit);
    assert(crate::ui::edit_cancel_rel(sk, sf));
    assert(sk.cur_col() == c);
    assert(sk.cur_action() == a);
    assert(sk.details_focused_param == s0.details_focused_param);
    assert(values_agree_except(s1, sk, c, a, p));
    assert(values_agree_except(s0, s1, c, a, p));
    lemma_values_agree_trans(s0, s1, sk, c, a, p);
    assert(values_agree_except(sk, sf, c, a, p));
    lemma_values_agree_trans(s0, sk, sf, c, a, p);
    assert(sf.pval(c, a, p) == sk.details_edit_original@);
    assert(sk.details_edit_original == s1.details_edit_original);
    assert(s1.details_edit_original@ == s0.pval(c, a, p));
    assert(s0.sel_of(c) is Some);
    assert(0 <= a < s0.actions_of(c).len());
    assert forall|c2: int, a2: int, p2: int|
        #![trigger sf.pval(c2, a2, p2)]
        0 <= c2 < s0.num_cols() && 0 <= a2 < s0.actions_of(c2).len() && 0 <= p2 < s0.params_of(
            c2,
            a2,
        ).len() implies sf.pval(c2, a2, p2) == s0.pval(c2, a2, p2) by {
        assert(s0.param_values@.len() == s0.num_cols());
        assert(s0.param_values@[c2]@.len() == s0.actions_of(c2).len());
        assert(s0.param_values@[c2]@[a2]@.len() == s0.params_of(c2, a2).len());
        if c2 == c && a2 == a && p2 == p {
        } else if c2 != c {
            assert(sf.param_values@[c2] == s0.param_values@[c2]);
        } else if a2 != a {
            assert(sf.param_values@[c2]@[a2] == s0.param_values@[c2]@[a2]);
        } else {
            assert(sf.param_values@[c2]@[a2]@[p2] == s0.param_values@[c2]@[a2]@[p2]);
        }
    }
}

} // verus!
