//! The interaction state machine: per-column selection, the focused
//! column, the details panel and text-edit mode, driven by discrete input
//! events.

use vstd::prelude::*;

use crate::config::{Column, Config, Parameter, ParameterOption, ParameterType};
use crate::event::{Effect, InputEvent};
use crate::template::{spec_substitute, string_views};

verus! {

/// Selection state of one column: the index of the selected action, or
/// nothing when the column has no actions.
pub struct ColumnState {
    pub selected: Option<usize>,
}

/// The whole runtime state: the immutable catalog, per-column selection,
/// the focused column, the details/edit sub-state, and the current value
/// of every parameter, positionally aligned with the catalog.
pub struct App {
    pub config: Config,
    pub columns: Vec<ColumnState>,
    pub focused_column: usize,
    pub show_details: bool,
    pub details_focused_param: usize,
    pub details_in_edit: bool,
    pub details_edit_buffer: String,
    pub details_edit_original: String,
    pub param_selected: Vec<Vec<Vec<usize>>>,
    pub param_values: Vec<Vec<Vec<String>>>,
}

/// The selection a column starts with: its first action, or nothing when
/// it has none.
pub open spec fn init_selected(col: Column) -> Option<usize> {
    if col.actions@.len() == 0 {
        Option::None
    } else {
        Option::Some(0usize)
    }
}

/// Index of the first option whose value is `v`, if any.
pub open spec fn find_option(opts: Seq<ParameterOption>, v: Seq<char>) -> Option<int>
    decreases opts.len(),
{
    if opts.len() == 0 {
        Option::None
    } else if opts[0].value@ == v {
        Option::Some(0int)
    } else {
        match find_option(opts.skip(1), v) {
            Option::Some(i) => Option::Some(i + 1),
            Option::None => Option::None,
        }
    }
}

/// The option index a parameter starts with: for a select parameter the
/// first option matching its default value, otherwise 0.
pub open spec fn init_psel(p: Parameter) -> int {
    if p.param_type is Select {
        match p.default {
            Option::Some(d) => match find_option(p.options@, d@) {
                Option::Some(i) => i,
                Option::None => 0,
            },
            Option::None => 0,
        }
    } else {
        0
    }
}

/// The current value a parameter starts with: for a select parameter the
/// value of its initial option (empty when it has none), for a text
/// parameter its default value or the empty string.
pub open spec fn init_pval(p: Parameter) -> Seq<char> {
    if p.param_type is Select {
        if p.options@.len() == 0 {
            Seq::empty()
        } else {
            p.options@[init_psel(p)].value@
        }
    } else {
        match p.default {
            Option::Some(d) => d@,
            Option::None => Seq::empty(),
        }
    }
}

/// The per-parameter state the machine maintains: a select parameter's
/// option index stays in range and its current value mirrors the selected
/// option; a text parameter's option index stays 0.
pub open spec fn param_state_ok(param: Parameter, sel: int, val: Seq<char>) -> bool {
    if param.param_type is Select {
        if param.options@.len() > 0 {
            &&& 0 <= sel < param.options@.len()
            &&& val == param.options@[sel].value@
        } else {
            sel == 0
        }
    } else {
        sel == 0
    }
}

impl App {
    pub open spec fn num_cols(self) -> int {
        self.config.columns@.len() as int
    }

    pub open spec fn actions_of(self, c: int) -> Seq<crate::config::Action> {
        self.config.columns@[c].actions@
    }

    pub open spec fn params_of(self, c: int, a: int) -> Seq<Parameter> {
        self.actions_of(c)[a].parameters@
    }

    pub open spec fn sel_of(self, c: int) -> Option<usize> {
        self.columns@[c].selected
    }

    pub open spec fn psel(self, c: int, a: int, p: int) -> int {
        self.param_selected@[c]@[a]@[p] as int
    }

    pub open spec fn pval(self, c: int, a: int, p: int) -> Seq<char> {
        self.param_values@[c]@[a]@[p]@
    }

    /// The focused column.
    pub open spec fn cur_col(self) -> int {
        self.focused_column as int
    }

    /// The selected action of the focused column; meaningful only when
    /// that column has a selection.
    pub open spec fn cur_action(self) -> int {
        self.sel_of(self.cur_col())->0 as int
    }

    /// The parameters of the focused action.
    pub open spec fn cur_params(self) -> Seq<Parameter> {
        self.params_of(self.cur_col(), self.cur_action())
    }

    /// The three parallel per-column structures all mirror the catalog's
    /// shape.
    pub open spec fn shape_ok(self) -> bool {
        &&& self.columns@.len() == self.num_cols()
        &&& self.param_selected@.len() == self.num_cols()
        &&& self.param_values@.len() == self.num_cols()
        &&& forall|c: int|
            0 <= c < self.num_cols() ==> (#[trigger] self.param_selected@[c])@.len()
                == self.actions_of(c).len()
        &&& forall|c: int|
            0 <= c < self.num_cols() ==> (#[trigger] self.param_values@[c])@.len()
                == self.actions_of(c).len()
        &&& forall|c: int, a: int|
            0 <= c < self.num_cols() && 0 <= a < self.actions_of(c).len() ==> (
            #[trigger] self.param_selected@[c]@[a])@.len() == self.params_of(c, a).len()
        &&& forall|c: int, a: int|
            0 <= c < self.num_cols() && 0 <= a < self.actions_of(c).len() ==> (
            #[trigger] self.param_values@[c]@[a])@.len() == self.params_of(c, a).len()
    }

    /// Each column's selection is in range, and absent exactly when the
    /// column has no actions.
    pub open spec fn sel_ok(self) -> bool {
        &&& forall|c: int|
            0 <= c < self.num_cols() ==> ((#[trigger] self.sel_of(c)) is None <==> self.actions_of(
                c,
            ).len() == 0)
        &&& forall|c: int|
            0 <= c < self.num_cols() && self.sel_of(c) is Some ==> ((#[trigger] self.sel_of(
                c,
            ))->0 as int) < self.actions_of(c).len()
    }

    /// Every parameter's runtime state is well formed.
    pub open spec fn params_ok(self) -> bool {
        forall|c: int, a: int, p: int|
            0 <= c < self.num_cols() && 0 <= a < self.actions_of(c).len() && 0 <= p < self.params_of(
                c,
                a,
            ).len() ==> param_state_ok(
                self.params_of(c, a)[p],
                #[trigger] self.psel(c, a, p),
                self.pval(c, a, p),
            )
    }

    /// While the details panel is open, the focused column has a selected
    /// action and the focused parameter is in range (or 0 when the action
    /// has no parameters).
    pub open spec fn details_ok(self) -> bool {
        self.show_details ==> {
            &&& self.sel_of(self.cur_col()) is Some
            &&& ((self.details_focused_param as int) < self.cur_params().len() || (
            self.cur_params().len() == 0 && self.details_focused_param == 0))
        }
    }

    /// While a text edit is in progress, the details panel is open, the
    /// focused parameter is a text parameter, and its current value
    /// mirrors the edit buffer.
    pub open spec fn edit_ok(self) -> bool {
        self.details_in_edit ==> {
            &&& self.show_details
            &&& self.cur_params().len() > 0
            &&& (self.details_focused_param as int) < self.cur_params().len()
            &&& self.cur_params()[self.details_focused_param as int].param_type is Text
            &&& self.pval(self.cur_col(), self.cur_action(), self.details_focused_param as int)
                == self.details_edit_buffer@
        }
    }

    /// The state invariant: established by `new`, preserved by every
    /// transition.
    pub open spec fn wf(self) -> bool {
        &&& self.num_cols() > 0
        &&& self.cur_col() < self.num_cols()
        &&& self.shape_ok()
        &&& self.sel_ok()
        &&& self.params_ok()
        &&& self.details_ok()
        &&& self.edit_ok()
    }
}

/// Selection moved one step up, clamped at the first action.
pub open spec fn moved_up(sel: Option<usize>) -> Option<usize> {
    match sel {
        Option::Some(i) => if i > 0 {
            Option::Some((i - 1) as usize)
        } else {
            sel
        },
        Option::None => sel,
    }
}

/// Selection moved one step down, clamped at the last action.
pub open spec fn moved_down(sel: Option<usize>, len: int) -> Option<usize> {
    match sel {
        Option::Some(i) => if i + 1 < len {
            Option::Some((i + 1) as usize)
        } else {
            sel
        },
        Option::None => sel,
    }
}

/// Selection moved one page up, clamped at the first action.
pub open spec fn paged_up(sel: Option<usize>, page: int) -> Option<usize> {
    match sel {
        Option::Some(i) => if i >= page {
            Option::Some((i - page) as usize)
        } else {
            Option::Some(0usize)
        },
        Option::None => sel,
    }
}

/// Selection moved one page down, clamped at the last action.
pub open spec fn paged_down(sel: Option<usize>, page: int, len: int) -> Option<usize> {
    match sel {
        Option::Some(i) => if i + page < len {
            Option::Some((i + page) as usize)
        } else {
            Option::Some((len - 1) as usize)
        },
        Option::None => sel,
    }
}

/// Selection jumped to the first action, when there is one.
pub open spec fn jumped_first(sel: Option<usize>, len: int) -> Option<usize> {
    if len > 0 {
        Option::Some(0usize)
    } else {
        sel
    }
}

/// Selection jumped to the last action, when there is one.
pub open spec fn jumped_last(sel: Option<usize>, len: int) -> Option<usize> {
    if len > 0 {
        Option::Some((len - 1) as usize)
    } else {
        sel
    }
}

/// The column after `f`, cyclically among the `n` columns.
pub open spec fn advance_col(f: int, n: int) -> int {
    if f + 1 < n {
        f + 1
    } else {
        0
    }
}

/// All fields of the state agree except possibly the per-column
/// selections.
pub open spec fn same_except_columns(pre: App, post: App) -> bool {
    &&& post.config == pre.config
    &&& post.focused_column == pre.focused_column
    &&& post.show_details == pre.show_details
    &&& post.details_focused_param == pre.details_focused_param
    &&& post.details_in_edit == pre.details_in_edit
    &&& post.details_edit_buffer == pre.details_edit_buffer
    &&& post.details_edit_original == pre.details_edit_original
    &&& post.param_selected == pre.param_selected
    &&& post.param_values == pre.param_values
}

/// All fields of the state agree except possibly the focused column.
pub open spec fn same_except_focus(pre: App, post: App) -> bool {
    &&& post.config == pre.config
    &&& post.columns == pre.columns
    &&& post.show_details == pre.show_details
    &&& post.details_focused_param == pre.details_focused_param
    &&& post.details_in_edit == pre.details_in_edit
    &&& post.details_edit_buffer == pre.details_edit_buffer
    &&& post.details_edit_original == pre.details_edit_original
    &&& post.param_selected == pre.param_selected
    &&& post.param_values == pre.param_values
}

/// All fields of the state agree except possibly the details-panel flag
/// and the focused parameter.
pub open spec fn same_except_details_view(pre: App, post: App) -> bool {
    &&& post.config == pre.config
    &&& post.columns == pre.columns
    &&& post.focused_column == pre.focused_column
    &&& post.details_in_edit == pre.details_in_edit
    &&& post.details_edit_buffer == pre.details_edit_buffer
    &&& post.details_edit_original == pre.details_edit_original
    &&& post.param_selected == pre.param_selected
    &&& post.param_values == pre.param_values
}

/// The focused column's selection became `s`; everything else is
/// unchanged.
pub open spec fn sel_transition(pre: App, post: App, s: Option<usize>) -> bool {
    &&& same_except_columns(pre, post)
    &&& post.columns@ == pre.columns@.update(pre.cur_col(), (ColumnState { selected: s }))
}

proof fn lemma_shape_preserved(pre: App, post: App)
    requires
        pre.shape_ok(),
        post.config == pre.config,
        post.columns@.len() == pre.columns@.len(),
        post.param_selected == pre.param_selected,
        post.param_values == pre.param_values,
    ensures
        post.shape_ok(),
{
    assert forall|c: int| 0 <= c < post.num_cols() implies (#[trigger] post.param_selected@[c])@.len()
        == post.actions_of(c).len() by {
        assert(pre.param_selected@[c]@.len() == pre.actions_of(c).len());
    }
    assert forall|c: int| 0 <= c < post.num_cols() implies (#[trigger] post.param_values@[c])@.len()
        == post.actions_of(c).len() by {
        assert(pre.param_values@[c]@.len() == pre.actions_of(c).len());
    }
    assert forall|c: int, a: int|
        0 <= c < post.num_cols() && 0 <= a < post.actions_of(c).len() implies (
    #[trigger] post.param_selected@[c]@[a])@.len() == post.params_of(c, a).len() by {
        assert(pre.param_selected@[c]@[a]@.len() == pre.params_of(c, a).len());
    }
    assert forall|c: int, a: int|
        0 <= c < post.num_cols() && 0 <= a < post.actions_of(c).len() implies (
    #[trigger] post.param_values@[c]@[a])@.len() == post.params_of(c, a).len() by {
        assert(pre.param_values@[c]@[a]@.len() == pre.params_of(c, a).len());
    }
}

proof fn lemma_params_ok_preserved(pre: App, post: App)
    requires
        pre.params_ok(),
        post.config == pre.config,
        post.param_selected == pre.param_selected,
        post.param_values == pre.param_values,
    ensures
        post.params_ok(),
{
    assert forall|c: int, a: int, p: int|
        0 <= c < post.num_cols() && 0 <= a < post.actions_of(c).len() && 0 <= p < post.params_of(
            c,
            a,
        ).len() implies param_state_ok(
        post.params_of(c, a)[p],
        #[trigger] post.psel(c, a, p),
        post.pval(c, a, p),
    ) by {
        assert(post.psel(c, a, p) == pre.psel(c, a, p));
        assert(post.pval(c, a, p) == pre.pval(c, a, p));
        assert(param_state_ok(pre.params_of(c, a)[p], pre.psel(c, a, p), pre.pval(c, a, p)));
    }
}

proof fn lemma_sel_ok_preserved(pre: App, post: App)
    requires
        pre.sel_ok(),
        post.config == pre.config,
        post.columns == pre.columns,
    ensures
        post.sel_ok(),
{
    assert forall|c: int|
        0 <= c < post.num_cols() implies ((#[trigger] post.sel_of(c)) is None <==> post.actions_of(
        c,
    ).len() == 0) by {
        assert(post.sel_of(c) == pre.sel_of(c));
    }
    assert forall|c: int|
        0 <= c < post.num_cols() && post.sel_of(c) is Some implies ((#[trigger] post.sel_of(
        c,
    ))->0 as int) < post.actions_of(c).len() by {
        assert(post.sel_of(c) == pre.sel_of(c));
    }
}

/// The catalog-shaped parts of the invariant only depend on the catalog,
/// the selections and the parameter tables.
proof fn lemma_wf_data_parts(pre: App, post: App)
    requires
        pre.shape_ok(),
        pre.sel_ok(),
        pre.params_ok(),
        post.config == pre.config,
        post.columns == pre.columns,
        post.param_selected == pre.param_selected,
        post.param_values == pre.param_values,
    ensures
        post.shape_ok(),
        post.sel_ok(),
        post.params_ok(),
{
    lemma_shape_preserved(pre, post);
    lemma_params_ok_preserved(pre, post);
    lemma_sel_ok_preserved(pre, post);
}

proof fn lemma_wf_after_sel(pre: App, post: App, s: Option<usize>)
    requires
        pre.wf(),
        !pre.show_details,
        sel_transition(pre, post, s),
        s is None <==> pre.actions_of(pre.cur_col()).len() == 0,
        s is Some ==> (s->0 as int) < pre.actions_of(pre.cur_col()).len(),
    ensures
        post.wf(),
{
    assert(post.columns@.len() == pre.columns@.len());
    lemma_shape_preserved(pre, post);
    lemma_params_ok_preserved(pre, post);
    assert forall|c: int|
        0 <= c < post.num_cols() implies ((#[trigger] post.sel_of(c)) is None <==> post.actions_of(
        c,
    ).len() == 0) by {
        if c != pre.cur_col() {
            assert(post.sel_of(c) == pre.sel_of(c));
        } else {
            assert(post.sel_of(c) == s);
        }
    }
    assert forall|c: int|
        0 <= c < post.num_cols() && post.sel_of(c) is Some implies ((#[trigger] post.sel_of(
        c,
    ))->0 as int) < post.actions_of(c).len() by {
        if c != pre.cur_col() {
            assert(post.sel_of(c) == pre.sel_of(c));
        } else {
            assert(post.sel_of(c) == s);
        }
    }
}

proof fn lemma_find_option_in_range(opts: Seq<ParameterOption>, v: Seq<char>)
    ensures
        find_option(opts, v) is Some ==> {
            &&& 0 <= find_option(opts, v)->0 < opts.len()
            &&& opts[find_option(opts, v)->0].value@ == v
        },
    decreases opts.len(),
{
    if opts.len() > 0 && opts[0].value@ != v {
        lemma_find_option_in_range(opts.skip(1), v);
    }
}

proof fn lemma_find_option_hit(opts: Seq<ParameterOption>, v: Seq<char>, i: int)
    requires
        0 <= i < opts.len(),
        opts[i].value@ == v,
        forall|j: int| 0 <= j < i ==> (#[trigger] opts[j]).value@ != v,
    ensures
        find_option(opts, v) == Option::Some(i),
    decreases i,
{
    if i > 0 {
        assert(opts.skip(1)[i - 1] == opts[i]);
        assert forall|j: int| 0 <= j < i - 1 implies (#[trigger] opts.skip(1)[j]).value@ != v by {
            assert(opts.skip(1)[j] == opts[j + 1]);
        }
        lemma_find_option_hit(opts.skip(1), v, i - 1);
    }
}

proof fn lemma_find_option_miss(opts: Seq<ParameterOption>, v: Seq<char>)
    requires
        forall|j: int| 0 <= j < opts.len() ==> (#[trigger] opts[j]).value@ != v,
    ensures
        find_option(opts, v) is None,
    decreases opts.len(),
{
    if opts.len() > 0 {
        assert forall|j: int| 0 <= j < opts.skip(1).len() implies (#[trigger] opts.skip(
            1,
        )[j]).value@ != v by {
            assert(opts.skip(1)[j] == opts[j + 1]);
        }
        lemma_find_option_miss(opts.skip(1), v);
    }
}

/// A parameter's initial runtime state is well formed.
proof fn lemma_init_param_ok(p: Parameter)
    ensures
        param_state_ok(p, init_psel(p), init_pval(p)),
{
    if p.param_type is Select && p.options@.len() > 0 {
        if p.default is Some {
            lemma_find_option_in_range(p.options@, p.default->0@);
        }
    }
}

fn find_option_index(opts: &Vec<ParameterOption>, v: &String) -> (r: Option<usize>)
    ensures
        match r {
            Option::Some(i) => find_option(opts@, v@) == Option::Some(i as int),
            Option::None => find_option(opts@, v@) is None,
        },
{
    let n = opts.len();
    let mut i: usize = 0;
    while i < n
        invariant
            n == opts@.len(),
            i <= n,
            forall|j: int| 0 <= j < i ==> (#[trigger] opts@[j]).value@ != v@,
        decreases n - i,
    {
        if opts[i].value.eq(v) {
            proof {
                lemma_find_option_hit(opts@, v@, i as int);
            }
            return Some(i);
        }
        i = i + 1;
    }
    proof {
        lemma_find_option_miss(opts@, v@);
    }
    None
}

/// The initial option index and current value of one parameter.
fn initial_param_state(p: &Parameter) -> (r: (usize, String))
    ensures
        r.0 as int == init_psel(*p),
        r.1@ == init_pval(*p),
{
    proof {
        lemma_init_param_ok(*p);
    }
    match p.param_type {
        ParameterType::Select => {
            let idx: usize = match &p.default {
                Some(d) => match find_option_index(&p.options, d) {
                    Some(i) => i,
                    None => 0,
                },
                None => 0,
            };
            if p.options.len() == 0 {
                (0, String::new())
            } else {
                (idx, String::from_str(p.options[idx].value.as_str()))
            }
        },
        ParameterType::Text => {
            match &p.default {
                Some(d) => (0, String::from_str(d.as_str())),
                None => (0, String::new()),
            }
        },
    }
}

/// Per-action runtime rows positionally aligned with its parameters,
/// holding each parameter's initial state.
pub open spec fn row_ok(act: crate::config::Action, sels: Vec<usize>, vals: Vec<String>) -> bool {
    &&& sels@.len() == act.parameters@.len()
    &&& vals@.len() == act.parameters@.len()
    &&& forall|p: int|
        #![trigger sels@[p]]
        #![trigger vals@[p]]
        0 <= p < act.parameters@.len() ==> (sels@[p] as int == init_psel(act.parameters@[p])
            && vals@[p]@ == init_pval(act.parameters@[p]))
}

/// Per-column runtime rows positionally aligned with its actions.
pub open spec fn rows_ok(col: Column, sels: Vec<Vec<usize>>, vals: Vec<Vec<String>>) -> bool {
    &&& sels@.len() == col.actions@.len()
    &&& vals@.len() == col.actions@.len()
    &&& forall|a: int|
        #![trigger sels@[a]]
        #![trigger vals@[a]]
        0 <= a < col.actions@.len() ==> row_ok(col.actions@[a], sels@[a], vals@[a])
}

impl App {
    /// Builds the initial runtime state from a loaded catalog: the first
    /// column focused, the first action of each non-empty column
    /// selected, no details panel, no edit in progress, and every
    /// parameter carrying its initial value.
    pub fn new(config: Config) -> (app: App)
        requires
            config.columns@.len() > 0,
        ensures
            app.wf(),
            app.config == config,
            app.focused_column == 0,
            app.show_details == false,
            app.details_in_edit == false,
            app.details_focused_param == 0,
            app.details_edit_buffer@ == Seq::<char>::empty(),
            app.details_edit_original@ == Seq::<char>::empty(),
            forall|c: int|
                0 <= c < config.columns@.len() ==> (#[trigger] app.sel_of(c)) == init_selected(
                    config.columns@[c],
                ),
            forall|c: int, a: int, p: int|
                0 <= c < app.num_cols() && 0 <= a < app.actions_of(c).len() && 0 <= p
                    < app.params_of(c, a).len() ==> (#[trigger] app.psel(c, a, p)) == init_psel(
                    app.params_of(c, a)[p],
                ) && app.pval(c, a, p) == init_pval(app.params_of(c, a)[p]),
    {
        let ncols = config.columns.len();
        let mut columns: Vec<ColumnState> = Vec::new();
        let mut param_selected: Vec<Vec<Vec<usize>>> = Vec::new();
        let mut param_values: Vec<Vec<Vec<String>>> = Vec::new();
        let mut c: usize = 0;
        while c < ncols
            invariant
                ncols == config.columns@.len(),
                c <= ncols,
                columns@.len() == c,
                param_selected@.len() == c,
                param_values@.len() == c,
                forall|cc: int|
                    0 <= cc < c ==> (#[trigger] columns@[cc]).selected == init_selected(
                        config.columns@[cc],
                    ),
                forall|cc: int|
                    #![trigger param_selected@[cc]]
                    #![trigger param_values@[cc]]
                    0 <= cc < c ==> rows_ok(
                        config.columns@[cc],
                        param_selected@[cc],
                        param_values@[cc],
                    ),
            decreases ncols - c,
        {
            let col = &config.columns[c];
            let nacts = col.actions.len();
            if nacts == 0 {
                columns.push(ColumnState { selected: None });
            } else {
                columns.push(ColumnState { selected: Some(0) });
            }
            let mut sel_rows: Vec<Vec<usize>> = Vec::new();
            let mut val_rows: Vec<Vec<String>> = Vec::new();
            let mut a: usize = 0;
            while a < nacts
                invariant
                    ncols == config.columns@.len(),
                    c < ncols,
                    nacts == config.columns@[c as int].actions@.len(),
                    a <= nacts,
                    sel_rows@.len() == a,
                    val_rows@.len() == a,
                    forall|aa: int|
                        #![trigger sel_rows@[aa]]
                        #![trigger val_rows@[aa]]
                        0 <= aa < a ==> row_ok(
                            config.columns@[c as int].actions@[aa],
                            sel_rows@[aa],
                            val_rows@[aa],
                        ),
                decreases nacts - a,
            {
                let act = &config.columns[c].actions[a];
                let nparams = act.parameters.len();
                let mut sels: Vec<usize> = Vec::new();
                let mut vals: Vec<String> = Vec::new();
                let mut p: usize = 0;
                while p < nparams
                    invariant
                        ncols == config.columns@.len(),
                        c < ncols,
                        a < config.columns@[c as int].actions@.len(),
                        nparams == config.columns@[c as int].actions@[a as int].parameters@.len(),
                        p <= nparams,
                        sels@.len() == p,
                        vals@.len() == p,
                        forall|pp: int|
                            0 <= pp < p ==> ((#[trigger] sels@[pp]) as int == init_psel(
                                config.columns@[c as int].actions@[a as int].parameters@[pp],
                            ) && vals@[pp]@ == init_pval(
                                config.columns@[c as int].actions@[a as int].parameters@[pp],
                            )),
                    decreases nparams - p,
                {
                    let st = initial_param_state(&config.columns[c].actions[a].parameters[p]);
                    sels.push(st.0);
                    vals.push(st.1);
                    p = p + 1;
                }
                sel_rows.push(sels);
                val_rows.push(vals);
                a = a + 1;
            }
            param_selected.push(sel_rows);
            param_values.push(val_rows);
            c = c + 1;
        }
        let app = App {
            config,
            columns,
            focused_column: 0,
            show_details: false,
            details_focused_param: 0,
            details_in_edit: false,
            details_edit_buffer: String::new(),
            details_edit_original: String::new(),
            param_selected,
            param_values,
        };
        proof {
            assert forall|c0: int, a0: int, p0: int|
                0 <= c0 < app.num_cols() && 0 <= a0 < app.actions_of(c0).len() && 0 <= p0
                    < app.params_of(c0, a0).len() implies param_state_ok(
                app.params_of(c0, a0)[p0],
                #[trigger] app.psel(c0, a0, p0),
                app.pval(c0, a0, p0),
            ) by {
                lemma_init_param_ok(app.params_of(c0, a0)[p0]);
            }
        }
        app
    }
}

/// The details panel opened on the focused action; the focused parameter
/// is kept when still valid and reset to 0 otherwise.
pub open spec fn entered_details_rel(pre: App, post: App) -> bool {
    &&& same_except_details_view(pre, post)
    &&& post.show_details == true
    &&& post.details_focused_param as int == (if (pre.details_focused_param as int)
        < pre.cur_params().len() {
        pre.details_focused_param as int
    } else {
        0
    })
}

/// The details panel closed; everything else is unchanged.
pub open spec fn exited_details_rel(pre: App, post: App) -> bool {
    &&& same_except_details_view(pre, post)
    &&& post.show_details == false
    &&& post.details_focused_param == pre.details_focused_param
}

/// The focused parameter became `dfp`; everything else is unchanged.
pub open spec fn param_focus_rel(pre: App, post: App, dfp: int) -> bool {
    &&& same_except_details_view(pre, post)
    &&& post.show_details == pre.show_details
    &&& post.details_focused_param as int == dfp
}

/// Where parameter focus moves on an up key: one step up, clamped at 0.
pub open spec fn param_up_target(pre: App) -> int {
    if pre.details_focused_param > 0 {
        pre.details_focused_param - 1
    } else {
        0
    }
}

/// Where parameter focus moves on a down key: one step down, clamped at
/// the last parameter.
pub open spec fn param_down_target(pre: App) -> int {
    if pre.details_focused_param + 1 < pre.cur_params().len() {
        pre.details_focused_param + 1
    } else {
        pre.details_focused_param as int
    }
}

impl App {
    /// The number of columns of the catalog.
    pub fn column_count(&self) -> (n: usize)
        ensures
            n as int == self.num_cols(),
    {
        self.config.columns.len()
    }

    /// Moves the selection of the focused column one step up, clamped at
    /// the first action; a no-op on a column without actions.
    pub fn move_up(&mut self)
        requires
            old(self).wf(),
            !old(self).show_details,
        ensures
            final(self).wf(),
            sel_transition(
                *old(self),
                *final(self),
                moved_up(old(self).sel_of(old(self).cur_col())),
            ),
    {
        let c = self.focused_column;
        let s = self.columns[c].selected;
        let ns = match s {
            Some(i) => if i > 0 {
                Some(i - 1)
            } else {
                Some(i)
            },
            None => None,
        };
        self.columns.set(c, ColumnState { selected: ns });
        proof {
            lemma_wf_after_sel(*old(self), *self, ns);
        }
    }

    /// Moves the selection of the focused column one step down, clamped
    /// at the last action; a no-op on a column without actions.
    pub fn move_down(&mut self)
        requires
            old(self).wf(),
            !old(self).show_details,
        ensures
            final(self).wf(),
            sel_transition(
                *old(self),
                *final(self),
                moved_down(
                    old(self).sel_of(old(self).cur_col()),
                    old(self).actions_of(old(self).cur_col()).len() as int,
                ),
            ),
    {
        let c = self.focused_column;
        let len = self.config.columns[c].actions.len();
        let s = self.columns[c].selected;
        let ns = match s {
            Some(i) => if i + 1 < len {
                Some(i + 1)
            } else {
                Some(i)
            },
            None => None,
        };
        self.columns.set(c, ColumnState { selected: ns });
        proof {
            lemma_wf_after_sel(*old(self), *self, ns);
        }
    }

    /// Moves the selection of the focused column `page` steps up, clamped
    /// at the first action.
    pub fn page_up(&mut self, page: usize)
        requires
            old(self).wf(),
            !old(self).show_details,
        ensures
            final(self).wf(),
            sel_transition(
                *old(self),
                *final(self),
                paged_up(old(self).sel_of(old(self).cur_col()), page as int),
            ),
    {
        let c = self.focused_column;
        let s = self.columns[c].selected;
        let ns = match s {
            Some(i) => if i >= page {
                Some(i - page)
            } else {
                Some(0)
            },
            None => None,
        };
        self.columns.set(c, ColumnState { selected: ns });
        proof {
            lemma_wf_after_sel(*old(self), *self, ns);
        }
    }

    /// Moves the selection of the focused column `page` steps down,
    /// clamped at the last action.
    pub fn page_down(&mut self, page: usize)
        requires
            old(self).wf(),
            !old(self).show_details,
        ensures
            final(self).wf(),
            sel_transition(
                *old(self),
                *final(self),
                paged_down(
                    old(self).sel_of(old(self).cur_col()),
                    page as int,
                    old(self).actions_of(old(self).cur_col()).len() as int,
                ),
            ),
    {
        let c = self.focused_column;
        let len = self.config.columns[c].actions.len();
        let s = self.columns[c].selected;
        let ns = match s {
            Some(i) => if page < len - i {
                Some(i + page)
            } else {
                Some(len - 1)
            },
            None => None,
        };
        self.columns.set(c, ColumnState { selected: ns });
        proof {
            lemma_wf_after_sel(*old(self), *self, ns);
        }
    }

    /// Jumps the selection of the focused column to the first action.
    pub fn jump_to_first(&mut self)
        requires
            old(self).wf(),
            !old(self).show_details,
        ensures
            final(self).wf(),
            sel_transition(
                *old(self),
                *final(self),
                jumped_first(
                    old(self).sel_of(old(self).cur_col()),
                    old(self).actions_of(old(self).cur_col()).len() as int,
                ),
            ),
    {
        let c = self.focused_column;
        let len = self.config.columns[c].actions.len();
        let s = self.columns[c].selected;
        let ns = if len > 0 {
            Some(0)
        } else {
            s
        };
        self.columns.set(c, ColumnState { selected: ns });
        proof {
            lemma_wf_after_sel(*old(self), *self, ns);
        }
    }

    /// Jumps the selection of the focused column to the last action.
    pub fn jump_to_last(&mut self)
        requires
            old(self).wf(),
            !old(self).show_details,
        ensures
            final(self).wf(),
            sel_transition(
                *old(self),
                *final(self),
                jumped_last(
                    old(self).sel_of(old(self).cur_col()),
                    old(self).actions_of(old(self).cur_col()).len() as int,
                ),
            ),
    {
        let c = self.focused_column;
        let len = self.config.columns[c].actions.len();
        let s = self.columns[c].selected;
        let ns = if len > 0 {
            Some(len - 1)
        } else {
            s
        };
        self.columns.set(c, ColumnState { selected: ns });
        proof {
            lemma_wf_after_sel(*old(self), *self, ns);
        }
    }

    /// Advances the focused column cyclically; every column, even one
    /// without actions, is a legitimate focus target.
    pub fn focus_next_column(&mut self)
        requires
            old(self).wf(),
            !old(self).show_details,
        ensures
            final(self).wf(),
            same_except_focus(*old(self), *final(self)),
            final(self).cur_col() == advance_col(old(self).cur_col(), old(self).num_cols()),
    {
        let n = self.config.columns.len();
        let f = self.focused_column;
        self.focused_column = if f + 1 < n {
            f + 1
        } else {
            0
        };
        proof {
            lemma_wf_data_parts(*old(self), *self);
        }
    }

    /// Opens the details panel on the focused action; requires a
    /// selection, and is a no-op without one.
    pub fn enter_details(&mut self)
        requires
            old(self).wf(),
            !old(self).show_details,
        ensures
            final(self).wf(),
            old(self).sel_of(old(self).cur_col()) is Some ==> entered_details_rel(
                *old(self),
                *final(self),
            ),
            old(self).sel_of(old(self).cur_col()) is None ==> *final(self) == *old(self),
    {
        let c = self.focused_column;
        match self.columns[c].selected {
            Some(a) => {
                let plen = self.config.columns[c].actions[a].parameters.len();
                if self.details_focused_param >= plen {
                    self.details_focused_param = 0;
                }
                self.show_details = true;
            },
            None => {},
        }
        proof {
            lemma_wf_data_parts(*old(self), *self);
        }
    }

    /// Closes the details panel.
    pub fn exit_details(&mut self)
        requires
            old(self).wf(),
            old(self).show_details,
            !old(self).details_in_edit,
        ensures
            final(self).wf(),
            exited_details_rel(*old(self), *final(self)),
    {
        self.show_details = false;
        proof {
            lemma_wf_data_parts(*old(self), *self);
        }
    }

    /// Moves the parameter focus one step up, clamped at the first
    /// parameter.
    pub fn param_focus_up(&mut self)
        requires
            old(self).wf(),
            old(self).show_details,
            !old(self).details_in_edit,
        ensures
            final(self).wf(),
            param_focus_rel(*old(self), *final(self), param_up_target(*old(self))),
    {
        if self.details_focused_param > 0 {
            self.details_focused_param = self.details_focused_param - 1;
        }
        proof {
            lemma_wf_data_parts(*old(self), *self);
        }
    }

    /// Moves the parameter focus one step down, clamped at the last
    /// parameter.
    pub fn param_focus_down(&mut self)
        requires
            old(self).wf(),
            old(self).show_details,
            !old(self).details_in_edit,
        ensures
            final(self).wf(),
            param_focus_rel(*old(self), *final(self), param_down_target(*old(self))),
    {
        let c = self.focused_column;
        let a = self.columns[c].selected.unwrap();
        let plen = self.config.columns[c].actions[a].parameters.len();
        if self.details_focused_param + 1 < plen {
            self.details_focused_param = self.details_focused_param + 1;
        }
        proof {
            lemma_wf_data_parts(*old(self), *self);
        }
    }
}

/// Relies on String::push: appends exactly the given character.
pub assume_specification[ String::push ](s: &mut String, ch: char)
    ensures
        final(s)@ == old(s)@.push(ch),
;

/// Relies on String::pop: removes and returns the last character, if any.
pub assume_specification[ String::pop ](s: &mut String) -> (r: Option<char>)
    ensures
        old(s)@.len() == 0 ==> r is None && final(s)@ == old(s)@,
        old(s)@.len() > 0 ==> r == Option::Some(old(s)@.last()) && final(s)@ == old(s)@.take(
            old(s)@.len() - 1,
        ),
;

/// All fields of the state agree except possibly the parameter tables.
pub open spec fn same_except_param_state(pre: App, post: App) -> bool {
    &&& post.config == pre.config
    &&& post.columns == pre.columns
    &&& post.focused_column == pre.focused_column
    &&& post.show_details == pre.show_details
    &&& post.details_focused_param == pre.details_focused_param
    &&& post.details_in_edit == pre.details_in_edit
    &&& post.details_edit_buffer == pre.details_edit_buffer
    &&& post.details_edit_original == pre.details_edit_original
}

/// The option-index table is unchanged except at `(c, a, p)`, where it
/// now holds `sel`.
pub open spec fn psel_cell_updated(
    pre: App,
    post: App,
    c: int,
    a: int,
    p: int,
    sel: usize,
) -> bool {
    &&& post.param_selected@.len() == pre.param_selected@.len()
    &&& forall|c2: int|
        0 <= c2 < pre.param_selected@.len() && c2 != c ==> (#[trigger] post.param_selected@[c2])
            == pre.param_selected@[c2]
    &&& post.param_selected@[c]@.len() == pre.param_selected@[c]@.len()
    &&& forall|a2: int|
        0 <= a2 < pre.param_selected@[c]@.len() && a2 != a ==> (
        #[trigger] post.param_selected@[c]@[a2]) == pre.param_selected@[c]@[a2]
    &&& post.param_selected@[c]@[a]@ == pre.param_selected@[c]@[a]@.update(p, sel)
}

/// The value table of `post` agrees with the one of `pre` everywhere
/// except possibly at `(c, a, p)`.
pub open spec fn values_agree_except(pre: App, post: App, c: int, a: int, p: int) -> bool {
    &&& post.param_values@.len() == pre.param_values@.len()
    &&& forall|c2: int|
        0 <= c2 < pre.param_values@.len() && c2 != c ==> (#[trigger] post.param_values@[c2])
            == pre.param_values@[c2]
    &&& post.param_values@[c]@.len() == pre.param_values@[c]@.len()
    &&& forall|a2: int|
        0 <= a2 < pre.param_values@[c]@.len() && a2 != a ==> (#[trigger] post.param_values@[c]@[a2])
            == pre.param_values@[c]@[a2]
    &&& post.param_values@[c]@[a]@.len() == pre.param_values@[c]@[a]@.len()
    &&& forall|p2: int|
        0 <= p2 < pre.param_values@[c]@[a]@.len() && p2 != p ==> (
        #[trigger] post.param_values@[c]@[a]@[p2]) == pre.param_values@[c]@[a]@[p2]
}

/// The value table is unchanged except at `(c, a, p)`, where its view is
/// now `val`.
pub open spec fn pval_cell_updated(
    pre: App,
    post: App,
    c: int,
    a: int,
    p: int,
    val: Seq<char>,
) -> bool {
    &&& values_agree_except(pre, post, c, a, p)
    &&& post.pval(c, a, p) == val
}

/// The details focus sits on a select parameter that has options.
pub open spec fn select_focus(pre: App) -> bool {
    &&& (pre.details_focused_param as int) < pre.cur_params().len()
    &&& pre.cur_params()[pre.details_focused_param as int].param_type is Select
    &&& pre.cur_params()[pre.details_focused_param as int].options@.len() > 0
}

/// A left key on the focused select parameter: the option index moves
/// down by one and the current value follows; a no-op at option 0 or on
/// anything but a select parameter.
pub open spec fn select_left_rel(pre: App, post: App) -> bool {
    let c = pre.cur_col();
    let a = pre.cur_action();
    let p = pre.details_focused_param as int;
    if select_focus(pre) && pre.psel(c, a, p) > 0 {
        let ns = (pre.psel(c, a, p) - 1) as usize;
        &&& same_except_param_state(pre, post)
        &&& psel_cell_updated(pre, post, c, a, p, ns)
        &&& pval_cell_updated(pre, post, c, a, p, pre.cur_params()[p].options@[ns as int].value@)
    } else {
        post == pre
    }
}

/// A right key on the focused select parameter: the option index moves
/// up by one and the current value follows; a no-op at the last option
/// or on anything but a select parameter.
pub open spec fn select_right_rel(pre: App, post: App) -> bool {
    let c = pre.cur_col();
    let a = pre.cur_action();
    let p = pre.details_focused_param as int;
    if select_focus(pre) && pre.psel(c, a, p) + 1 < pre.cur_params()[p].options@.len() {
        let ns = (pre.psel(c, a, p) + 1) as usize;
        &&& same_except_param_state(pre, post)
        &&& psel_cell_updated(pre, post, c, a, p, ns)
        &&& pval_cell_updated(pre, post, c, a, p, pre.cur_params()[p].options@[ns as int].value@)
    } else {
        post == pre
    }
}

/// An edit began on the focused text parameter: the pre-edit value is
/// captured and the buffer seeded with it.
pub open spec fn begin_edit_rel(pre: App, post: App) -> bool {
    let c = pre.cur_col();
    let a = pre.cur_action();
    let p = pre.details_focused_param as int;
    &&& post.config == pre.config
    &&& post.columns == pre.columns
    &&& post.focused_column == pre.focused_column
    &&& post.show_details == pre.show_details
    &&& post.details_focused_param == pre.details_focused_param
    &&& post.details_in_edit == true
    &&& post.details_edit_original@ == pre.pval(c, a, p)
    &&& post.details_edit_buffer@ == pre.pval(c, a, p)
    &&& post.param_selected == pre.param_selected
    &&& post.param_values == pre.param_values
}

/// A character was typed while editing: appended to the buffer and
/// mirrored into the focused parameter's current value.
pub open spec fn edit_char_rel(pre: App, post: App, ch: char) -> bool {
    let c = pre.cur_col();
    let a = pre.cur_action();
    let p = pre.details_focused_param as int;
    &&& post.config == pre.config
    &&& post.columns == pre.columns
    &&& post.focused_column == pre.focused_column
    &&& post.show_details == pre.show_details
    &&& post.details_focused_param == pre.details_focused_param
    &&& post.details_in_edit == true
    &&& post.details_edit_original == pre.details_edit_original
    &&& post.details_edit_buffer@ == pre.details_edit_buffer@.push(ch)
    &&& post.param_selected == pre.param_selected
    &&& pval_cell_updated(pre, post, c, a, p, pre.details_edit_buffer@.push(ch))
}

/// A sequence with its last element removed; unchanged when empty.
pub open spec fn popped(s: Seq<char>) -> Seq<char> {
    if s.len() > 0 {
        s.take(s.len() - 1)
    } else {
        s
    }
}

/// Backspace while editing: the last buffer character removed and the
/// buffer mirrored into the focused parameter's current value.
pub open spec fn edit_backspace_rel(pre: App, post: App) -> bool {
    let c = pre.cur_col();
    let a = pre.cur_action();
    let p = pre.details_focused_param as int;
    &&& post.config == pre.config
    &&& post.columns == pre.columns
    &&& post.focused_column == pre.focused_column
    &&& post.show_details == pre.show_details
    &&& post.details_focused_param == pre.details_focused_param
    &&& post.details_in_edit == true
    &&& post.details_edit_original == pre.details_edit_original
    &&& post.details_edit_buffer@ == popped(pre.details_edit_buffer@)
    &&& post.param_selected == pre.param_selected
    &&& pval_cell_updated(pre, post, c, a, p, popped(pre.details_edit_buffer@))
}

/// The edit was committed: edit mode ends, the value keeps what was
/// typed, the buffers are cleared.
pub open spec fn edit_commit_rel(pre: App, post: App) -> bool {
    &&& post.config == pre.config
    &&& post.columns == pre.columns
    &&& post.focused_column == pre.focused_column
    &&& post.show_details == pre.show_details
    &&& post.details_focused_param == pre.details_focused_param
    &&& post.details_in_edit == false
    &&& post.details_edit_buffer@ == Seq::<char>::empty()
    &&& post.details_edit_original@ == Seq::<char>::empty()
    &&& post.param_selected == pre.param_selected
    &&& post.param_values == pre.param_values
}

/// The edit was cancelled: edit mode ends and the focused parameter's
/// value is restored to what it was when the edit began.
pub open spec fn edit_cancel_rel(pre: App, post: App) -> bool {
    let c = pre.cur_col();
    let a = pre.cur_action();
    let p = pre.details_focused_param as int;
    &&& post.config == pre.config
    &&& post.columns == pre.columns
    &&& post.focused_column == pre.focused_column
    &&& post.show_details == pre.show_details
    &&& post.details_focused_param == pre.details_focused_param
    &&& post.details_in_edit == false
    &&& post.details_edit_buffer@ == Seq::<char>::empty()
    &&& post.details_edit_original@ == Seq::<char>::empty()
    &&& post.param_selected == pre.param_selected
    &&& pval_cell_updated(pre, post, c, a, p, pre.details_edit_original@)
}

proof fn lemma_wf_after_focused_cell(pre: App, post: App, sel: usize, val: Seq<char>)
    requires
        pre.wf(),
        pre.show_details,
        post.config == pre.config,
        post.columns == pre.columns,
        post.focused_column == pre.focused_column,
        post.show_details == pre.show_details,
        post.details_focused_param == pre.details_focused_param,
        (pre.details_focused_param as int) < pre.cur_params().len(),
        psel_cell_updated(
            pre,
            post,
            pre.cur_col(),
            pre.cur_action(),
            pre.details_focused_param as int,
            sel,
        ),
        pval_cell_updated(
            pre,
            post,
            pre.cur_col(),
            pre.cur_action(),
            pre.details_focused_param as int,
            val,
        ),
        param_state_ok(pre.cur_params()[pre.details_focused_param as int], sel as int, val),
        post.details_in_edit ==> post.details_edit_buffer@ == val && pre.cur_params()[pre.details_focused_param as int].param_type is Text,
    ensures
        post.wf(),
{
    let c = pre.cur_col();
    let a = pre.cur_action();
    let p = pre.details_focused_param as int;
    lemma_sel_ok_preserved(pre, post);
    assert(0 <= c < pre.num_cols());
    assert(0 <= a < pre.actions_of(c).len());
    assert forall|c2: int|
        0 <= c2 < post.num_cols() implies (#[trigger] post.param_selected@[c2])@.len()
        == post.actions_of(c2).len() && (post.param_values@[c2])@.len() == post.actions_of(
        c2,
    ).len() by {
        assert(pre.param_selected@[c2]@.len() == pre.actions_of(c2).len());
        assert(pre.param_values@[c2]@.len() == pre.actions_of(c2).len());
        if c2 != c {
            assert(post.param_selected@[c2] == pre.param_selected@[c2]);
            assert(post.param_values@[c2] == pre.param_values@[c2]);
        }
    }
    assert forall|c2: int, a2: int|
        0 <= c2 < post.num_cols() && 0 <= a2 < post.actions_of(c2).len() implies (
    #[trigger] post.param_selected@[c2]@[a2])@.len() == post.params_of(c2, a2).len() && (
    post.param_values@[c2]@[a2])@.len() == post.params_of(c2, a2).len() by {
        assert(pre.param_selected@[c2]@[a2]@.len() == pre.params_of(c2, a2).len());
        assert(pre.param_values@[c2]@[a2]@.len() == pre.params_of(c2, a2).len());
        if c2 != c {
            assert(post.param_selected@[c2] == pre.param_selected@[c2]);
            assert(post.param_values@[c2] == pre.param_values@[c2]);
        } else if a2 != a {
            assert(post.param_selected@[c2]@[a2] == pre.param_selected@[c2]@[a2]);
            assert(post.param_values@[c2]@[a2] == pre.param_values@[c2]@[a2]);
        }
    }
    assert(post.shape_ok());
    assert forall|c2: int, a2: int, p2: int|
        0 <= c2 < post.num_cols() && 0 <= a2 < post.actions_of(c2).len() && 0 <= p2
            < post.params_of(c2, a2).len() implies param_state_ok(
        post.params_of(c2, a2)[p2],
        #[trigger] post.psel(c2, a2, p2),
        post.pval(c2, a2, p2),
    ) by {
        assert(param_state_ok(pre.params_of(c2, a2)[p2], pre.psel(c2, a2, p2), pre.pval(c2, a2, p2)));
        if c2 == c && a2 == a && p2 == p {
            assert(post.psel(c2, a2, p2) == sel as int);
            assert(post.pval(c2, a2, p2) == val);
        } else if c2 != c {
            assert(post.param_selected@[c2] == pre.param_selected@[c2]);
            assert(post.param_values@[c2] == pre.param_values@[c2]);
        } else if a2 != a {
            assert(post.param_selected@[c2]@[a2] == pre.param_selected@[c2]@[a2]);
            assert(post.param_values@[c2]@[a2] == pre.param_values@[c2]@[a2]);
        } else {
            assert(post.psel(c2, a2, p2) == pre.psel(c2, a2, p2));
            assert(post.pval(c2, a2, p2) == pre.pval(c2, a2, p2));
        }
    }
    assert(post.details_ok());
    assert(post.edit_ok());
}

impl App {
    /// Cycles the focused select parameter one option to the left,
    /// clamped at the first option, and mirrors the option's value into
    /// the parameter's current value.
    pub fn select_left(&mut self)
        requires
            old(self).wf(),
            old(self).show_details,
            !old(self).details_in_edit,
        ensures
            final(self).wf(),
            select_left_rel(*old(self), *final(self)),
    {
        let c = self.focused_column;
        let a = self.columns[c].selected.unwrap();
        let p = self.details_focused_param;
        let plen = self.config.columns[c].actions[a].parameters.len();
        if p < plen {
            match self.config.columns[c].actions[a].parameters[p].param_type {
                ParameterType::Select => {
                    let opts_len = self.config.columns[c].actions[a].parameters[p].options.len();
                    if opts_len > 0 {
                        proof {
                            assert(param_state_ok(
                                old(self).params_of(c as int, a as int)[p as int],
                                old(self).psel(c as int, a as int, p as int),
                                old(self).pval(c as int, a as int, p as int),
                            ));
                        }
                        let cur = self.param_selected[c][a][p];
                        if cur > 0 {
                            let ns = cur - 1;
                            let nv = String::from_str(
                                self.config.columns[c].actions[a].parameters[p].options[ns].value.as_str(),
                            );
                            self.param_selected[c][a].set(p, ns);
                            self.param_values[c][a].set(p, nv);
                            proof {
                                lemma_wf_after_focused_cell(
                                    *old(self),
                                    *self,
                                    ns,
                                    old(self).cur_params()[p as int].options@[ns as int].value@,
                                );
                            }
                        }
                    }
                },
                ParameterType::Text => {},
            }
        }
    }

    /// Cycles the focused select parameter one option to the right,
    /// clamped at the last option, and mirrors the option's value into
    /// the parameter's current value.
    pub fn select_right(&mut self)
        requires
            old(self).wf(),
            old(self).show_details,
            !old(self).details_in_edit,
        ensures
            final(self).wf(),
            select_right_rel(*old(self), *final(self)),
    {
        let c = self.focused_column;
        let a = self.columns[c].selected.unwrap();
        let p = self.details_focused_param;
        let plen = self.config.columns[c].actions[a].parameters.len();
        if p < plen {
            match self.config.columns[c].actions[a].parameters[p].param_type {
                ParameterType::Select => {
                    let opts_len = self.config.columns[c].actions[a].parameters[p].options.len();
                    if opts_len > 0 {
                        proof {
                            assert(param_state_ok(
                                old(self).params_of(c as int, a as int)[p as int],
                                old(self).psel(c as int, a as int, p as int),
                                old(self).pval(c as int, a as int, p as int),
                            ));
                        }
                        let cur = self.param_selected[c][a][p];
                        if cur + 1 < opts_len {
                            let ns = cur + 1;
                            let nv = String::from_str(
                                self.config.columns[c].actions[a].parameters[p].options[ns].value.as_str(),
                            );
                            self.param_selected[c][a].set(p, ns);
                            self.param_values[c][a].set(p, nv);
                            proof {
                                lemma_wf_after_focused_cell(
                                    *old(self),
                                    *self,
                                    ns,
                                    old(self).cur_params()[p as int].options@[ns as int].value@,
                                );
                            }
                        }
                    }
                },
                ParameterType::Text => {},
            }
        }
    }

    /// Begins a text edit on the focused parameter: captures the
    /// pre-edit value and seeds the buffer with it; a no-op unless the
    /// focused parameter is a text parameter.
    pub fn begin_edit(&mut self)
        requires
            old(self).wf(),
            old(self).show_details,
            !old(self).details_in_edit,
        ensures
            final(self).wf(),
            if (old(self).details_focused_param as int) < old(self).cur_params().len() && old(
                self,
            ).cur_params()[old(self).details_focused_param as int].param_type is Text {
                begin_edit_rel(*old(self), *final(self))
            } else {
                *final(self) == *old(self)
            },
    {
        let c = self.focused_column;
        let a = self.columns[c].selected.unwrap();
        let p = self.details_focused_param;
        let plen = self.config.columns[c].actions[a].parameters.len();
        if p < plen {
            match self.config.columns[c].actions[a].parameters[p].param_type {
                ParameterType::Text => {
                    let v = self.param_values[c][a][p].clone();
                    self.details_edit_original = v.clone();
                    self.details_edit_buffer = v;
                    self.details_in_edit = true;
                    proof {
                        lemma_wf_data_parts(*old(self), *self);
                    }
                },
                ParameterType::Select => {},
            }
        }
    }

    /// Appends a typed character to the edit buffer and mirrors the
    /// buffer into the focused parameter's current value.
    pub fn edit_char(&mut self, ch: char)
        requires
            old(self).wf(),
            old(self).details_in_edit,
        ensures
            final(self).wf(),
            edit_char_rel(*old(self), *final(self), ch),
    {
        let c = self.focused_column;
        let a = self.columns[c].selected.unwrap();
        let p = self.details_focused_param;
        self.details_edit_buffer.push(ch);
        let nv = self.details_edit_buffer.clone();
        self.param_values[c][a].set(p, nv);
        proof {
            assert(self.param_selected@[c as int]@[a as int]@ =~= old(
                self,
            ).param_selected@[c as int]@[a as int]@.update(
                p as int,
                old(self).param_selected@[c as int]@[a as int]@[p as int],
            ));
            assert(param_state_ok(
                old(self).params_of(c as int, a as int)[p as int],
                old(self).psel(c as int, a as int, p as int),
                old(self).pval(c as int, a as int, p as int),
            ));
            lemma_wf_after_focused_cell(
                *old(self),
                *self,
                old(self).param_selected@[c as int]@[a as int]@[p as int],
                old(self).details_edit_buffer@.push(ch),
            );
        }
    }

    /// Removes the last character of the edit buffer, if any, and
    /// mirrors the buffer into the focused parameter's current value.
    pub fn edit_backspace(&mut self)
        requires
            old(self).wf(),
            old(self).details_in_edit,
        ensures
            final(self).wf(),
            edit_backspace_rel(*old(self), *final(self)),
    {
        let c = self.focused_column;
        let a = self.columns[c].selected.unwrap();
        let p = self.details_focused_param;
        let _dropped = self.details_edit_buffer.pop();
        let nv = self.details_edit_buffer.clone();
        self.param_values[c][a].set(p, nv);
        proof {
            assert(self.param_selected@[c as int]@[a as int]@ =~= old(
                self,
            ).param_selected@[c as int]@[a as int]@.update(
                p as int,
                old(self).param_selected@[c as int]@[a as int]@[p as int],
            ));
            assert(param_state_ok(
                old(self).params_of(c as int, a as int)[p as int],
                old(self).psel(c as int, a as int, p as int),
                old(self).pval(c as int, a as int, p as int),
            ));
            lemma_wf_after_focused_cell(
                *old(self),
                *self,
                old(self).param_selected@[c as int]@[a as int]@[p as int],
                popped(old(self).details_edit_buffer@),
            );
        }
    }

    /// Commits the edit: edit mode ends, the typed value stays, the
    /// buffers are cleared.
    pub fn edit_commit(&mut self)
        requires
            old(self).wf(),
            old(self).details_in_edit,
        ensures
            final(self).wf(),
            edit_commit_rel(*old(self), *final(self)),
    {
        self.details_in_edit = false;
        self.details_edit_buffer = String::new();
        self.details_edit_original = String::new();
        proof {
            lemma_wf_data_parts(*old(self), *self);
        }
    }

    /// Cancels the edit: edit mode ends and the focused parameter's
    /// value is restored to the captured pre-edit value.
    pub fn edit_cancel(&mut self)
        requires
            old(self).wf(),
            old(self).details_in_edit,
        ensures
            final(self).wf(),
            edit_cancel_rel(*old(self), *final(self)),
    {
        let c = self.focused_column;
        let a = self.columns[c].selected.unwrap();
        let p = self.details_focused_param;
        let restored = self.details_edit_original.clone();
        self.param_values[c][a].set(p, restored);
        self.details_in_edit = false;
        self.details_edit_buffer = String::new();
        self.details_edit_original = String::new();
        proof {
            assert(self.param_selected@[c as int]@[a as int]@ =~= old(
                self,
            ).param_selected@[c as int]@[a as int]@.update(
                p as int,
                old(self).param_selected@[c as int]@[a as int]@[p as int],
            ));
            assert(param_state_ok(
                old(self).params_of(c as int, a as int)[p as int],
                old(self).psel(c as int, a as int, p as int),
                old(self).pval(c as int, a as int, p as int),
            ));
            lemma_wf_after_focused_cell(
                *old(self),
                *self,
                old(self).param_selected@[c as int]@[a as int]@[p as int],
                old(self).details_edit_original@,
            );
        }
    }
}

/// The value substituted for parameter `p` of action `(c, a)`: the
/// selected option's value for a select parameter (empty when the index
/// has no option), the current text value otherwise.
pub open spec fn effective_value(app: App, c: int, a: int, p: int) -> Seq<char> {
    let param = app.params_of(c, a)[p];
    if param.param_type is Select {
        if 0 <= app.psel(c, a, p) < param.options@.len() {
            param.options@[app.psel(c, a, p)].value@
        } else {
            Seq::empty()
        }
    } else {
        app.pval(c, a, p)
    }
}

/// The fully substituted command string of action `(c, a)`.
pub open spec fn spec_command(app: App, c: int, a: int) -> Seq<char> {
    spec_substitute(
        app.actions_of(c)[a].template@,
        app.params_of(c, a),
        Seq::new(app.params_of(c, a).len(), |p: int| effective_value(app, c, a, p)),
    )
}

/// The effect of a run request: execution of the focused action's
/// substituted command.
pub open spec fn run_effect(pre: App, eff: Effect) -> bool {
    eff matches Effect::Execute(cmd) && cmd@ == spec_command(pre, pre.cur_col(), pre.cur_action())
}

/// The transition relation of the state machine: relates the state
/// before one event to the state after it and the effect handed to the
/// event loop. `page` is the page size the view layer supplies for page
/// movements.
pub open spec fn next_state(pre: App, ev: InputEvent, page: usize, post: App, eff: Effect) -> bool {
    if pre.details_in_edit {
        match ev {
            InputEvent::Character(ch) => edit_char_rel(pre, post, ch) && eff is Stay,
            InputEvent::Backspace => edit_backspace_rel(pre, post) && eff is Stay,
            InputEvent::Confirm => edit_commit_rel(pre, post) && eff is Stay,
            InputEvent::Cancel => edit_cancel_rel(pre, post) && eff is Stay,
            _ => post == pre && eff is Stay,
        }
    } else if pre.show_details {
        match ev {
            InputEvent::Quit => post == pre && eff is Terminate,
            InputEvent::Up => param_focus_rel(pre, post, param_up_target(pre)) && eff is Stay,
            InputEvent::Down => param_focus_rel(pre, post, param_down_target(pre)) && eff is Stay,
            InputEvent::Left => select_left_rel(pre, post) && eff is Stay,
            InputEvent::Right => select_right_rel(pre, post) && eff is Stay,
            InputEvent::Confirm => (if (pre.details_focused_param as int) < pre.cur_params().len()
                && pre.cur_params()[pre.details_focused_param as int].param_type is Text {
                begin_edit_rel(pre, post)
            } else {
                post == pre
            }) && eff is Stay,
            InputEvent::Cancel => exited_details_rel(pre, post) && eff is Stay,
            InputEvent::Run => post == pre && run_effect(pre, eff),
            _ => post == pre && eff is Stay,
        }
    } else {
        match ev {
            InputEvent::Quit => post == pre && eff is Terminate,
            InputEvent::SwitchColumn => same_except_focus(pre, post) && post.cur_col()
                == advance_col(pre.cur_col(), pre.num_cols()) && eff is Stay,
            InputEvent::Up => sel_transition(pre, post, moved_up(pre.sel_of(pre.cur_col())))
                && eff is Stay,
            InputEvent::Down => sel_transition(
                pre,
                post,
                moved_down(pre.sel_of(pre.cur_col()), pre.actions_of(pre.cur_col()).len() as int),
            ) && eff is Stay,
            InputEvent::PageUp => sel_transition(
                pre,
                post,
                paged_up(pre.sel_of(pre.cur_col()), page as int),
            ) && eff is Stay,
            InputEvent::PageDown => sel_transition(
                pre,
                post,
                paged_down(
                    pre.sel_of(pre.cur_col()),
                    page as int,
                    pre.actions_of(pre.cur_col()).len() as int,
                ),
            ) && eff is Stay,
            InputEvent::Home => sel_transition(
                pre,
                post,
                jumped_first(
                    pre.sel_of(pre.cur_col()),
                    pre.actions_of(pre.cur_col()).len() as int,
                ),
            ) && eff is Stay,
            InputEvent::End => sel_transition(
                pre,
                post,
                jumped_last(pre.sel_of(pre.cur_col()), pre.actions_of(pre.cur_col()).len() as int),
            ) && eff is Stay,
            InputEvent::Confirm => (if pre.sel_of(pre.cur_col()) is Some {
                entered_details_rel(pre, post)
            } else {
                post == pre
            }) && eff is Stay,
            _ => post == pre && eff is Stay,
        }
    }
}

impl App {
    /// The command string of action `(c, a)` with every parameter's
    /// current value substituted for its placeholder, in declaration
    /// order.
    pub fn build_substituted_command(&self, c: usize, a: usize) -> (out: String)
        requires
            self.wf(),
            (c as int) < self.num_cols(),
            (a as int) < self.actions_of(c as int).len(),
        ensures
            out@ == spec_command(*self, c as int, a as int),
    {
        let n = self.config.columns[c].actions[a].parameters.len();
        let mut values: Vec<String> = Vec::new();
        let mut p: usize = 0;
        while p < n
            invariant
                self.wf(),
                (c as int) < self.num_cols(),
                (a as int) < self.actions_of(c as int).len(),
                n == self.params_of(c as int, a as int).len(),
                p <= n,
                values@.len() == p,
                forall|j: int|
                    0 <= j < p ==> (#[trigger] values@[j])@ == effective_value(
                        *self,
                        c as int,
                        a as int,
                        j,
                    ),
            decreases n - p,
        {
            let param = &self.config.columns[c].actions[a].parameters[p];
            match param.param_type {
                ParameterType::Select => {
                    let sel = self.param_selected[c][a][p];
                    if sel < param.options.len() {
                        values.push(String::from_str(param.options[sel].value.as_str()));
                    } else {
                        values.push(String::new());
                    }
                },
                ParameterType::Text => {
                    values.push(self.param_values[c][a][p].clone());
                },
            }
            p = p + 1;
        }
        let out = crate::template::substitute_values(
            &self.config.columns[c].actions[a].template,
            &self.config.columns[c].actions[a].parameters,
            &values,
        );
        proof {
            assert(string_views(values@) =~= Seq::new(
                self.params_of(c as int, a as int).len(),
                |j: int| effective_value(*self, c as int, a as int, j),
            ));
        }
        out
    }

    /// The preview line: the substituted command of the focused action,
    /// or an empty string when the focused column has no selection.
    pub fn preview(&self) -> (out: String)
        requires
            self.wf(),
        ensures
            self.sel_of(self.cur_col()) is Some ==> out@ == spec_command(
                *self,
                self.cur_col(),
                self.cur_action(),
            ),
            self.sel_of(self.cur_col()) is None ==> out@ == Seq::<char>::empty(),
    {
        let c = self.focused_column;
        match self.columns[c].selected {
            Some(a) => self.build_substituted_command(c, a),
            None => String::new(),
        }
    }

    /// The focused action, when the focused column has a selection.
    pub fn focused_action(&self) -> (r: Option<&crate::config::Action>)
        requires
            self.wf(),
        ensures
            match r {
                Option::Some(act) => self.sel_of(self.cur_col()) is Some && *act == self.actions_of(
                    self.cur_col(),
                )[self.cur_action()],
                Option::None => self.sel_of(self.cur_col()) is None,
            },
    {
        let c = self.focused_column;
        match self.columns[c].selected {
            Some(i) => Some(&self.config.columns[c].actions[i]),
            None => None,
        }
    }

    /// The position (column, action) of the focused action, if any.
    pub fn focused_action_index(&self) -> (r: Option<(usize, usize)>)
        requires
            self.wf(),
        ensures
            match r {
                Option::Some(ca) => ca.0 as int == self.cur_col() && self.sel_of(self.cur_col())
                    == Option::Some(ca.1),
                Option::None => self.sel_of(self.cur_col()) is None,
            },
    {
        let c = self.focused_column;
        match self.columns[c].selected {
            Some(i) => Some((c, i)),
            None => None,
        }
    }

    /// Applies one input event, following the transition table: the
    /// single entry point the event loop drives. Returns the effect the
    /// loop must perform afterwards.
    pub fn handle_event(&mut self, ev: InputEvent, page: usize) -> (eff: Effect)
        requires
            old(self).wf(),
        ensures
            final(self).wf(),
            next_state(*old(self), ev, page, *final(self), eff),
    {
        if self.details_in_edit {
            match ev {
                InputEvent::Character(ch) => {
                    self.edit_char(ch);
                    Effect::Stay
                },
                InputEvent::Backspace => {
                    self.edit_backspace();
                    Effect::Stay
                },
                InputEvent::Confirm => {
                    self.edit_commit();
                    Effect::Stay
                },
                InputEvent::Cancel => {
                    self.edit_cancel();
                    Effect::Stay
                },
                _ => Effect::Stay,
            }
        } else if self.show_details {
            match ev {
                InputEvent::Quit => Effect::Terminate,
                InputEvent::Up => {
                    self.param_focus_up();
                    Effect::Stay
                },
                InputEvent::Down => {
                    self.param_focus_down();
                    Effect::Stay
                },
                InputEvent::Left => {
                    self.select_left();
                    Effect::Stay
                },
                InputEvent::Right => {
                    self.select_right();
                    Effect::Stay
                },
                InputEvent::Confirm => {
                    self.begin_edit();
                    Effect::Stay
                },
                InputEvent::Cancel => {
                    self.exit_details();
                    Effect::Stay
                },
                InputEvent::Run => {
                    let c = self.focused_column;
                    let a = self.columns[c].selected.unwrap();
                    let cmd = self.build_substituted_command(c, a);
                    Effect::Execute(cmd)
                },
                _ => Effect::Stay,
            }
        } else {
            match ev {
                InputEvent::Quit => Effect::Terminate,
                InputEvent::SwitchColumn => {
                    self.focus_next_column();
                    Effect::Stay
                },
                InputEvent::Up => {
                    self.move_up();
                    Effect::Stay
                },
                InputEvent::Down => {
                    self.move_down();
                    Effect::Stay
                },
                InputEvent::PageUp => {
                    self.page_up(page);
                    Effect::Stay
                },
                InputEvent::PageDown => {
                    self.page_down(page);
                    Effect::Stay
                },
                InputEvent::Home => {
                    self.jump_to_first();
                    Effect::Stay
                },
                InputEvent::End => {
                    self.jump_to_last();
                    Effect::Stay
                },
                InputEvent::Confirm => {
                    self.enter_details();
                    Effect::Stay
                },
                _ => Effect::Stay,
            }
        }
    }
}

proof fn lemma_wf_after_edit_mirror(pre: App, post: App, val: Seq<char>)
    requires
        pre.wf(),
        pre.details_in_edit,
        post.config == pre.config,
        post.columns == pre.columns,
        post.focused_column == pre.focused_column,
        post.show_details == pre.show_details,
        post.details_focused_param == pre.details_focused_param,
        post.param_selected == pre.param_selected,
        pval_cell_updated(
            pre,
            post,
            pre.cur_col(),
            pre.cur_action(),
            pre.details_focused_param as int,
            val,
        ),
        post.details_in_edit ==> post.details_edit_buffer@ == val,
    ensures
        post.wf(),
{
    let c = pre.cur_col();
    let a = pre.cur_action();
    let p = pre.details_focused_param as int;
    assert(pre.sel_of(c) is Some);
    assert(0 <= a < pre.actions_of(c).len());
    assert(param_state_ok(pre.params_of(c, a)[p], pre.psel(c, a, p), pre.pval(c, a, p)));
    assert(post.param_selected@[c]@[a]@ =~= pre.param_selected@[c]@[a]@.update(
        p,
        pre.param_selected@[c]@[a]@[p],
    ));
    lemma_wf_after_focused_cell(pre, post, pre.param_selected@[c]@[a]@[p], val);
}

/// Every transition of the state machine preserves the invariant and
/// never touches the catalog.
pub proof fn lemma_step_preserves_wf(pre: App, ev: InputEvent, page: usize, post: App, eff: Effect)
    requires
        pre.wf(),
        next_state(pre, ev, page, post, eff),
    ensures
        post.wf(),
        post.config == pre.config,
{
    let c = pre.cur_col();
    let a = pre.cur_action();
    let p = pre.details_focused_param as int;
    if pre.details_in_edit {
        match ev {
            InputEvent::Character(ch) => {
                lemma_wf_after_edit_mirror(pre, post, pre.details_edit_buffer@.push(ch));
            },
            InputEvent::Backspace => {
                lemma_wf_after_edit_mirror(pre, post, popped(pre.details_edit_buffer@));
            },
            InputEvent::Confirm => {
                lemma_wf_data_parts(pre, post);
            },
            InputEvent::Cancel => {
                lemma_wf_after_edit_mirror(pre, post, pre.details_edit_original@);
            },
            _ => {},
        }
    } else if pre.show_details {
        match ev {
            InputEvent::Up => {
                lemma_wf_data_parts(pre, post);
            },
            InputEvent::Down => {
                lemma_wf_data_parts(pre, post);
            },
            InputEvent::Left => {
                if select_focus(pre) && pre.psel(c, a, p) > 0 {
                    assert(param_state_ok(pre.params_of(c, a)[p], pre.psel(c, a, p), pre.pval(c, a, p)));
                    lemma_wf_after_focused_cell(
                        pre,
                        post,
                        (pre.psel(c, a, p) - 1) as usize,
                        pre.cur_params()[p].options@[pre.psel(c, a, p) - 1].value@,
                    );
                }
            },
            InputEvent::Right => {
                if select_focus(pre) && pre.psel(c, a, p) + 1 < pre.cur_params()[p].options@.len() {
                    assert(param_state_ok(pre.params_of(c, a)[p], pre.psel(c, a, p), pre.pval(c, a, p)));
                    assert(vstd::std_specs::vec::spec_vec_len(&pre.cur_params()[p].options)
                        == pre.cur_params()[p].options@.len());
                    let ns = (pre.psel(c, a, p) + 1) as usize;
                    assert(ns as int == pre.psel(c, a, p) + 1);
                    lemma_wf_after_focused_cell(
                        pre,
                        post,
                        ns,
                        pre.cur_params()[p].options@[ns as int].value@,
                    );
                }
            },
            InputEvent::Confirm => {
                if p < pre.cur_params().len() && pre.cur_params()[p].param_type is Text {
                    lemma_wf_data_parts(pre, post);
                }
            },
            InputEvent::Cancel => {
                lemma_wf_data_parts(pre, post);
            },
            _ => {},
        }
    } else {
        match ev {
            InputEvent::SwitchColumn => {
                lemma_wf_data_parts(pre, post);
            },
            InputEvent::Up => {
                assert(pre.sel_of(c) is None <==> pre.actions_of(c).len() == 0);
                lemma_wf_after_sel(pre, post, moved_up(pre.sel_of(c)));
            },
            InputEvent::Down => {
                assert(pre.sel_of(c) is None <==> pre.actions_of(c).len() == 0);
                lemma_wf_after_sel(
                    pre,
                    post,
                    moved_down(pre.sel_of(c), pre.actions_of(c).len() as int),
                );
            },
            InputEvent::PageUp => {
                assert(pre.sel_of(c) is None <==> pre.actions_of(c).len() == 0);
                lemma_wf_after_sel(pre, post, paged_up(pre.sel_of(c), page as int));
            },
            InputEvent::PageDown => {
                assert(pre.sel_of(c) is None <==> pre.actions_of(c).len() == 0);
                lemma_wf_after_sel(
                    pre,
                    post,
                    paged_down(pre.sel_of(c), page as int, pre.actions_of(c).len() as int),
                );
            },
            InputEvent::Home => {
                assert(pre.sel_of(c) is None <==> pre.actions_of(c).len() == 0);
                lemma_wf_after_sel(
                    pre,
                    post,
                    jumped_first(pre.sel_of(c), pre.actions_of(c).len() as int),
                );
            },
            InputEvent::End => {
                assert(pre.sel_of(c) is None <==> pre.actions_of(c).len() == 0);
                lemma_wf_after_sel(
                    pre,
                    post,
                    jumped_last(pre.sel_of(c), pre.actions_of(c).len() as int),
                );
            },
            InputEvent::Confirm => {
                if pre.sel_of(c) is Some {
                    lemma_wf_data_parts(pre, post);
                }
            },
            _ => {},
        }
    }
}

} // verus!
