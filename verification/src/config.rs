//! The action catalog: columns of labeled command templates, each with its
//! parameters, plus the validation that the loader boundary performs before
//! any runtime state is built from a catalog.

use vstd::prelude::*;

verus! {

/// Root of the catalog: application metadata plus the ordered columns.
pub struct Config {
    pub app: AppConfig,
    pub columns: Vec<Column>,
}

/// Application-level settings shown in the header.
pub struct AppConfig {
    pub title: String,
    pub subtitle: String,
}

/// A column of the launcher: an id, a title and an ordered list of actions.
pub struct Column {
    pub id: String,
    pub title: String,
    pub actions: Vec<Action>,
}

/// An action: a label, a command template with placeholders, an optional
/// description and the parameters substituted into the template.
pub struct Action {
    pub label: String,
    pub template: String,
    pub description: Option<String>,
    pub parameters: Vec<Parameter>,
}

/// Parameter kind: free text input or a choice among fixed options.
#[derive(Clone, Copy, Debug, PartialEq, Eq, Structural)]
pub enum ParameterType {
    Text,
    Select,
}

impl Default for ParameterType {
    /// A parameter whose kind is left unspecified is a text parameter.
    fn default() -> (r: Self)
        ensures
            r is Text,
    {
        ParameterType::Text
    }
}

/// A parameter of an action: its placeholder is replaced in the template by
/// the current value (text) or by the selected option's value (select).
pub struct Parameter {
    pub name: String,
    pub placeholder: String,
    pub param_type: ParameterType,
    pub required: bool,
    pub description: Option<String>,
    pub options: Vec<ParameterOption>,
    pub default: Option<String>,
}

/// One choice of a select parameter: the value substituted into the
/// template and the label shown to the operator.
pub struct ParameterOption {
    pub value: String,
    pub label: String,
}

/// Why a catalog was rejected; indices name the offending item.
#[derive(Clone, Copy, Debug, PartialEq, Eq, Structural)]
pub enum LoadError {
    NoColumns,
    EmptyColumnId { column: usize },
    EmptyColumnTitle { column: usize },
    NoActions { column: usize },
    EmptyActionLabel { column: usize, action: usize },
    EmptyActionTemplate { column: usize, action: usize },
    EmptyParameterName { column: usize, action: usize, parameter: usize },
    EmptyPlaceholder { column: usize, action: usize, parameter: usize },
    SelectWithoutOptions { column: usize, action: usize, parameter: usize },
}

/// A parameter is well formed: non-empty name and placeholder, and a select
/// parameter has at least one option.
pub open spec fn param_ok(p: Parameter) -> bool {
    &&& p.name@.len() > 0
    &&& p.placeholder@.len() > 0
    &&& (p.param_type is Select ==> p.options@.len() > 0)
}

/// An action is well formed: non-empty label and template, and every
/// parameter is well formed.
pub open spec fn action_ok(a: Action) -> bool {
    &&& a.label@.len() > 0
    &&& a.template@.len() > 0
    &&& forall|p: int| 0 <= p < a.parameters@.len() ==> param_ok(#[trigger] a.parameters@[p])
}

/// A column is well formed: non-empty id and title, at least one action,
/// and every action is well formed.
pub open spec fn column_ok(c: Column) -> bool {
    &&& c.id@.len() > 0
    &&& c.title@.len() > 0
    &&& c.actions@.len() > 0
    &&& forall|a: int| 0 <= a < c.actions@.len() ==> action_ok(#[trigger] c.actions@[a])
}

/// The invariant the loader guarantees before the core ever runs: at least
/// one column, and every column is well formed.
pub open spec fn config_ok(c: Config) -> bool {
    &&& c.columns@.len() > 0
    &&& forall|i: int| 0 <= i < c.columns@.len() ==> column_ok(#[trigger] c.columns@[i])
}

/// First failure reported for a single parameter, in check order.
pub open spec fn check_param(p: Parameter, ci: int, ai: int, pi: int) -> Result<(), LoadError> {
    if p.name@.len() == 0 {
        Err(LoadError::EmptyParameterName { column: ci as usize, action: ai as usize, parameter: pi as usize })
    } else if p.placeholder@.len() == 0 {
        Err(LoadError::EmptyPlaceholder { column: ci as usize, action: ai as usize, parameter: pi as usize })
    } else if p.param_type is Select && p.options@.len() == 0 {
        Err(LoadError::SelectWithoutOptions { column: ci as usize, action: ai as usize, parameter: pi as usize })
    } else {
        Ok(())
    }
}

/// First failure among the parameters from index `pi` on.
pub open spec fn check_params(ps: Seq<Parameter>, ci: int, ai: int, pi: int) -> Result<(), LoadError>
    decreases ps.len() - pi,
{
    if pi < 0 || pi >= ps.len() {
        Ok(())
    } else {
        match check_param(ps[pi], ci, ai, pi) {
            Result::Err(e) => Err(e),
            Result::Ok(_) => check_params(ps, ci, ai, pi + 1),
        }
    }
}

/// First failure reported for a single action, in check order.
pub open spec fn check_action(a: Action, ci: int, ai: int) -> Result<(), LoadError> {
    if a.label@.len() == 0 {
        Err(LoadError::EmptyActionLabel { column: ci as usize, action: ai as usize })
    } else if a.template@.len() == 0 {
        Err(LoadError::EmptyActionTemplate { column: ci as usize, action: ai as usize })
    } else {
        check_params(a.parameters@, ci, ai, 0)
    }
}

/// First failure among the actions from index `ai` on.
pub open spec fn check_actions(acts: Seq<Action>, ci: int, ai: int) -> Result<(), LoadError>
    decreases acts.len() - ai,
{
    if ai < 0 || ai >= acts.len() {
        Ok(())
    } else {
        match check_action(acts[ai], ci, ai) {
            Result::Err(e) => Err(e),
            Result::Ok(_) => check_actions(acts, ci, ai + 1),
        }
    }
}

/// First failure reported for a single column, in check order.
pub open spec fn check_column(c: Column, ci: int) -> Result<(), LoadError> {
    if c.id@.len() == 0 {
        Err(LoadError::EmptyColumnId { column: ci as usize })
    } else if c.title@.len() == 0 {
        Err(LoadError::EmptyColumnTitle { column: ci as usize })
    } else if c.actions@.len() == 0 {
        Err(LoadError::NoActions { column: ci as usize })
    } else {
        check_actions(c.actions@, ci, 0)
    }
}

/// First failure among the columns from index `ci` on.
pub open spec fn check_columns(cols: Seq<Column>, ci: int) -> Result<(), LoadError>
    decreases cols.len() - ci,
{
    if ci < 0 || ci >= cols.len() {
        Ok(())
    } else {
        match check_column(cols[ci], ci) {
            Result::Err(e) => Err(e),
            Result::Ok(_) => check_columns(cols, ci + 1),
        }
    }
}

/// The full validation walk, reporting the first failure in document order.
pub open spec fn spec_validate(c: Config) -> Result<(), LoadError> {
    if c.columns@.len() == 0 {
        Err(LoadError::NoColumns)
    } else {
        check_columns(c.columns@, 0)
    }
}

proof fn lemma_check_params_ok(ps: Seq<Parameter>, ci: int, ai: int, pi: int)
    requires
        0 <= pi <= ps.len(),
    ensures
        check_params(ps, ci, ai, pi) is Ok <==> forall|p: int|
            pi <= p < ps.len() ==> param_ok(#[trigger] ps[p]),
    decreases ps.len() - pi,
{
    if pi < ps.len() {
        lemma_check_params_ok(ps, ci, ai, pi + 1);
    }
}

proof fn lemma_check_actions_ok(acts: Seq<Action>, ci: int, ai: int)
    requires
        0 <= ai <= acts.len(),
    ensures
        check_actions(acts, ci, ai) is Ok <==> forall|a: int|
            ai <= a < acts.len() ==> action_ok(#[trigger] acts[a]),
    decreases acts.len() - ai,
{
    if ai < acts.len() {
        lemma_check_params_ok(acts[ai].parameters@, ci, ai, 0);
        lemma_check_actions_ok(acts, ci, ai + 1);
    }
}

proof fn lemma_check_columns_ok(cols: Seq<Column>, ci: int)
    requires
        0 <= ci <= cols.len(),
    ensures
        check_columns(cols, ci) is Ok <==> forall|c: int|
            ci <= c < cols.len() ==> column_ok(#[trigger] cols[c]),
    decreases cols.len() - ci,
{
    if ci < cols.len() {
        lemma_check_actions_ok(cols[ci].actions@, ci, 0);
        lemma_check_columns_ok(cols, ci + 1);
    }
}

/// A catalog passes the validation walk exactly when it satisfies the
/// declarative invariant `config_ok`.
pub proof fn lemma_validate_iff_ok(c: Config)
    ensures
        spec_validate(c) is Ok <==> config_ok(c),
{
    if c.columns@.len() > 0 {
        lemma_check_columns_ok(c.columns@, 0);
    }
}

fn validate_params(ps: &Vec<Parameter>, ci: usize, ai: usize) -> (r: Result<(), LoadError>)
    ensures
        r == check_params(ps@, ci as int, ai as int, 0),
{
    let n = ps.len();
    let mut pi: usize = 0;
    while pi < n
        invariant
            n == ps@.len(),
            pi <= n,
            check_params(ps@, ci as int, ai as int, 0) == check_params(
                ps@,
                ci as int,
                ai as int,
                pi as int,
            ),
        decreases n - pi,
    {
        let p = &ps[pi];
        if p.name.as_str().is_empty() {
            return Err(LoadError::EmptyParameterName { column: ci, action: ai, parameter: pi });
        }
        if p.placeholder.as_str().is_empty() {
            return Err(LoadError::EmptyPlaceholder { column: ci, action: ai, parameter: pi });
        }
        match p.param_type {
            ParameterType::Select => {
                if p.options.len() == 0 {
                    return Err(
                        LoadError::SelectWithoutOptions { column: ci, action: ai, parameter: pi },
                    );
                }
            },
            ParameterType::Text => {},
        }
        pi = pi + 1;
    }
    Ok(())
}

fn validate_action(a: &Action, ci: usize, ai: usize) -> (r: Result<(), LoadError>)
    ensures
        r == check_action(*a, ci as int, ai as int),
{
    if a.label.as_str().is_empty() {
        return Err(LoadError::EmptyActionLabel { column: ci, action: ai });
    }
    if a.template.as_str().is_empty() {
        return Err(LoadError::EmptyActionTemplate { column: ci, action: ai });
    }
    validate_params(&a.parameters, ci, ai)
}

fn validate_column(c: &Column, ci: usize) -> (r: Result<(), LoadError>)
    ensures
        r == check_column(*c, ci as int),
{
    if c.id.as_str().is_empty() {
        return Err(LoadError::EmptyColumnId { column: ci });
    }
    if c.title.as_str().is_empty() {
        return Err(LoadError::EmptyColumnTitle { column: ci });
    }
    let n = c.actions.len();
    if n == 0 {
        return Err(LoadError::NoActions { column: ci });
    }
    let mut ai: usize = 0;
    while ai < n
        invariant
            n == c.actions@.len(),
            ai <= n,
            check_column(*c, ci as int) == check_actions(c.actions@, ci as int, ai as int),
        decreases n - ai,
    {
        match validate_action(&c.actions[ai], ci, ai) {
            Result::Err(e) => {
                proof {
                    assert(check_actions(c.actions@, ci as int, ai as int) == Err::<(), LoadError>(
                        e,
                    ));
                }
                return Err(e);
            },
            Result::Ok(_) => {},
        }
        ai = ai + 1;
    }
    Ok(())
}

impl Config {
    /// Checks the loader-boundary invariant: at least one column; each
    /// column has a non-empty id and title and at least one action; each
    /// action has a non-empty label and template; each parameter has a
    /// non-empty name and placeholder; each select parameter has options.
    /// Reports the first violation in document order.
    pub fn validate(&self) -> (r: Result<(), LoadError>)
        ensures
            r == spec_validate(*self),
            r is Ok <==> config_ok(*self),
    {
        proof {
            lemma_validate_iff_ok(*self);
        }
        let n = self.columns.len();
        if n == 0 {
            return Err(LoadError::NoColumns);
        }
        let mut ci: usize = 0;
        while ci < n
            invariant
                n == self.columns@.len(),
                ci <= n,
                spec_validate(*self) == check_columns(self.columns@, ci as int),
                spec_validate(*self) is Ok <==> config_ok(*self),
            decreases n - ci,
        {
            match validate_column(&self.columns[ci], ci) {
                Result::Err(e) => {
                    proof {
                        assert(check_columns(self.columns@, ci as int) == Err::<(), LoadError>(e));
                    }
                    return Err(e);
                },
                Result::Ok(_) => {},
            }
            ci = ci + 1;
        }
        Ok(())
    }
}

} // verus!
