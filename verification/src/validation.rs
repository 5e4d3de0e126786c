//! Validation of task specifications: every problem found is reported with
//! the place where it was found, and a task is valid when none is.

use vstd::prelude::*;
use crate::task_spec::{
    env_index_of, env_lookup, env_names_distinct, lemma_env_index_of, var_type_is_sensitive, ConditionSpec, EnvMap, EnvVarSpec, TaskSpec, VarType,
};
use crate::text::{is_blank, is_blank_text};

verus! {

/// A problem found in a specification.
#[derive(Debug)]
pub enum ValidationError {
    /// The task has no command at all.
    EmptyTask { task: String },
    /// One of the task's commands is empty or whitespace only.
    EmptyCommandTask { task: String },
    /// A `choice` variable declares no option to choose from.
    ChoiceWithoutOptions { var: String },
    /// One of a condition's commands is empty or whitespace only.
    EmptyConditionCommand,
    /// `audit.log_env` names a variable that the task does not declare.
    AuditLogEnvUnknownVar { task: String, var: String },
    /// `audit.log_env` names a variable typed `secret`.
    AuditLogEnvIsSecret { task: String, var: String },
}

/// A [`ValidationError`] with its texts taken as character sequences.
pub enum ValidationErrorView {
    EmptyTask { task: Seq<char> },
    EmptyCommandTask { task: Seq<char> },
    ChoiceWithoutOptions { var: Seq<char> },
    EmptyConditionCommand,
    AuditLogEnvUnknownVar { task: Seq<char>, var: Seq<char> },
    AuditLogEnvIsSecret { task: Seq<char>, var: Seq<char> },
}

impl View for ValidationError {
    type V = ValidationErrorView;

    open spec fn view(&self) -> ValidationErrorView {
        match self {
            ValidationError::EmptyTask { task } => ValidationErrorView::EmptyTask { task: task@ },
            ValidationError::EmptyCommandTask { task } => ValidationErrorView::EmptyCommandTask {
                task: task@,
            },
            ValidationError::ChoiceWithoutOptions { var } => ValidationErrorView::ChoiceWithoutOptions {
                var: var@,
            },
            ValidationError::EmptyConditionCommand => ValidationErrorView::EmptyConditionCommand,
            ValidationError::AuditLogEnvUnknownVar { task, var } =>
                ValidationErrorView::AuditLogEnvUnknownVar { task: task@, var: var@ },
            ValidationError::AuditLogEnvIsSecret { task, var } =>
                ValidationErrorView::AuditLogEnvIsSecret { task: task@, var: var@ },
        }
    }
}

/// One problem and the place (`context`) where it was found.
#[derive(Debug)]
pub struct ValidationIssue {
    pub context: String,
    pub error: ValidationError,
}

/// A problem and its place, as values.
pub type IssueView = (Seq<char>, ValidationErrorView);

impl View for ValidationIssue {
    type V = IssueView;

    open spec fn view(&self) -> IssueView {
        (self.context@, self.error@)
    }
}

/// The views of a list of issues.
pub open spec fn issues_view(v: Seq<ValidationIssue>) -> Seq<IssueView> {
    v.map_values(|i: ValidationIssue| i@)
}

/// The outcome of a validation: the problems found, in the order found.
#[derive(Debug)]
pub struct ValidationResult {
    issues: Vec<ValidationIssue>,
}

impl View for ValidationResult {
    type V = Seq<IssueView>;

    closed spec fn view(&self) -> Seq<IssueView> {
        issues_view(self.issues@)
    }
}

impl ValidationResult {
    /// A result with no problem.
    pub fn new() -> (r: ValidationResult)
        ensures
            r@ == Seq::<IssueView>::empty(),
    {
        let r = ValidationResult { issues: Vec::new() };
        assert(r@ =~= Seq::<IssueView>::empty());
        r
    }

    /// Records `error`, found at `context`.
    pub fn push(&mut self, context: String, error: ValidationError)
        ensures
            final(self)@ == old(self)@.push((context@, error@)),
    {
        let ghost before = self@;
        self.issues.push(ValidationIssue { context, error });
        assert(self@ =~= before.push((context@, error@)));
    }

    /// Appends the problems of `other` after those of `self`.
    pub fn merge(&mut self, other: ValidationResult)
        ensures
            final(self)@ == old(self)@ + other@,
    {
        let ghost before = self@;
        let mut other_issues = other.issues;
        self.issues.append(&mut other_issues);
        assert(self@ =~= before + other@);
    }

    /// Whether no problem was found.
    pub fn is_ok(&self) -> (b: bool)
        ensures
            b == (self@.len() == 0),
    {
        self.issues.len() == 0
    }

    /// The problems found.
    pub fn errors(&self) -> (e: &[ValidationIssue])
        ensures
            issues_view(e@) == self@,
    {
        self.issues.as_slice()
    }

    /// The problems found, taken out of the result.
    pub fn into_errors(self) -> (e: Vec<ValidationIssue>)
        ensures
            issues_view(e@) == self@,
    {
        self.issues
    }
}

/// One issue per blank command of `cmds`, each being `error` at `context`.
pub open spec fn blank_command_issues(
    cmds: Seq<String>,
    context: Seq<char>,
    error: ValidationErrorView,
) -> Seq<IssueView>
    decreases cmds.len(),
{
    if cmds.len() == 0 {
        Seq::empty()
    } else {
        let rest = blank_command_issues(cmds.drop_last(), context, error);
        if is_blank_text(cmds.last()@) {
            rest.push((context, error))
        } else {
            rest
        }
    }
}

/// Whether a variable declaration is acceptable on its own.
pub open spec fn env_var_acceptable(spec: EnvVarSpec) -> bool {
    !(spec.var_type == VarType::Choice && spec.options@.len() == 0)
}

/// The problems of a list of variable declarations, found at `context`.
pub open spec fn env_issues(es: Seq<(Seq<char>, EnvVarSpec)>, context: Seq<char>) -> Seq<IssueView>
    decreases es.len(),
{
    if es.len() == 0 {
        Seq::empty()
    } else {
        let rest = env_issues(es.drop_last(), context);
        if env_var_acceptable(es.last().1) {
            rest
        } else {
            rest.push((context, ValidationErrorView::ChoiceWithoutOptions { var: es.last().0 }))
        }
    }
}

/// The place the condition validator reports its problems at.
pub open spec fn condition_context() -> Seq<char> {
    "condition"@
}

/// The problems of a condition.
pub open spec fn condition_issues(c: ConditionSpec) -> Seq<IssueView> {
    blank_command_issues(c.cmds@, condition_context(), ValidationErrorView::EmptyConditionCommand)
}

/// The problems of a list of preconditions, each reported at `context`.
pub open spec fn precondition_issues(conds: Seq<ConditionSpec>, context: Seq<char>) -> Seq<IssueView>
    decreases conds.len(),
{
    if conds.len() == 0 {
        Seq::empty()
    } else {
        precondition_issues(conds.drop_last(), context) + condition_issues(conds.last()).map_values(
            |p: IssueView| (context, p.1),
        )
    }
}

/// The problem, if any, of one name listed in a task's `audit.log_env`.
pub open spec fn log_env_issue(
    var: Seq<char>,
    env: Seq<(Seq<char>, EnvVarSpec)>,
    task: Seq<char>,
    context: Seq<char>,
) -> Seq<IssueView> {
    match env_lookup(env, var) {
        None => seq![(context, ValidationErrorView::AuditLogEnvUnknownVar { task, var })],
        Some(spec) => if var_type_is_sensitive(spec.var_type) {
            seq![(context, ValidationErrorView::AuditLogEnvIsSecret { task, var })]
        } else {
            Seq::empty()
        },
    }
}

/// The problems of a task's `audit.log_env` list.
pub open spec fn log_env_issues(
    vars: Seq<String>,
    env: Seq<(Seq<char>, EnvVarSpec)>,
    task: Seq<char>,
    context: Seq<char>,
) -> Seq<IssueView>
    decreases vars.len(),
{
    if vars.len() == 0 {
        Seq::empty()
    } else {
        log_env_issues(vars.drop_last(), env, task, context) + log_env_issue(
            vars.last()@,
            env,
            task,
            context,
        )
    }
}

/// The place a task's own problems are reported at: `task '<name>'`.
pub open spec fn task_context(name: Seq<char>) -> Seq<char> {
    "task '"@ + name + "'"@
}

/// The place a task's precondition problems are reported at.
pub open spec fn precondition_context(name: Seq<char>) -> Seq<char> {
    task_context(name) + " precondition"@
}

/// All problems of the task `t` named `name`, in the order the validator
/// reports them: no command, blank commands, variable declarations,
/// preconditions, then the `audit.log_env` list.
pub open spec fn task_issues(name: Seq<char>, t: TaskSpec) -> Seq<IssueView> {
    let context = task_context(name);
    (if t.cmds@.len() == 0 {
        seq![(context, ValidationErrorView::EmptyTask { task: name })]
    } else {
        Seq::empty()
    }) + blank_command_issues(
        t.cmds@,
        context,
        ValidationErrorView::EmptyCommandTask { task: name },
    ) + env_issues(t.env@, context) + precondition_issues(
        t.preconditions@,
        precondition_context(name),
    ) + match t.audit {
        None => Seq::empty(),
        Some(a) => log_env_issues(a.log_env@, t.env@, name, context),
    }
}

/// Records, in order, one `make_error()` at `context` for each blank command.
fn push_blank_command_issues(
    result: &mut ValidationResult,
    cmds: &Vec<String>,
    context: &String,
    task_name: Option<&str>,
)
    ensures
        final(result)@ == old(result)@ + blank_command_issues(
            cmds@,
            context@,
            match task_name {
                Some(n) => ValidationErrorView::EmptyCommandTask { task: n@ },
                None => ValidationErrorView::EmptyConditionCommand,
            },
        ),
{
    let ghost error = match task_name {
        Some(n) => ValidationErrorView::EmptyCommandTask { task: n@ },
        None => ValidationErrorView::EmptyConditionCommand,
    };
    let ghost start = result@;
    let mut i: usize = 0;
    while i < cmds.len()
        invariant
            i <= cmds@.len(),
            result@ == start + blank_command_issues(cmds@.take(i as int), context@, error),
            error == match task_name {
                Some(n) => ValidationErrorView::EmptyCommandTask { task: n@ },
                None => ValidationErrorView::EmptyConditionCommand,
            },
        decreases cmds@.len() - i,
    {
        assert(cmds@.take(i + 1).drop_last() =~= cmds@.take(i as int));
        let ghost prefix = cmds@.take(i + 1);
        assert(prefix.last() == cmds@[i as int]);
        if is_blank(cmds[i].as_str()) {
            let e = match task_name {
                Some(n) => ValidationError::EmptyCommandTask { task: String::from_str(n) },
                None => ValidationError::EmptyConditionCommand,
            };
            result.push(context.clone(), e);
            assert(result@ =~= start + blank_command_issues(prefix, context@, error));
        } else {
            assert(result@ =~= start + blank_command_issues(prefix, context@, error));
        }
        i = i + 1;
    }
    assert(cmds@.take(cmds@.len() as int) =~= cmds@);
}

/// Validates the variable declarations of a task.
pub struct EnvironmentValidator;

impl EnvironmentValidator {
    /// Reports, at `context` and in declaration order, every `choice` variable
    /// that declares no option.
    pub fn validate_map(env: &EnvMap, context: &String) -> (r: ValidationResult)
        ensures
            r@ == env_issues(env@, context@),
    {
        let mut result = ValidationResult::new();
        let mut i: usize = 0;
        while i < env.len()
            invariant
                i <= env@.len(),
                result@ == env_issues(env@.take(i as int), context@),
            decreases env@.len() - i,
        {
            assert(env@.take(i + 1).drop_last() =~= env@.take(i as int));
            let ghost prefix = env@.take(i + 1);
            assert(prefix.last() == env@[i as int]);
            let (name, spec) = env.entry(i);
            let no_options = spec.options.len() == 0;
            match spec.var_type {
                VarType::Choice => {
                    if no_options {
                        result.push(
                            context.clone(),
                            ValidationError::ChoiceWithoutOptions { var: name.clone() },
                        );
                    }
                },
                _ => {},
            }
            assert(result@ =~= env_issues(prefix, context@));
            i = i + 1;
        }
        assert(env@.take(env@.len() as int) =~= env@);
        result
    }
}

/// Validates conditions (preconditions of tasks).
pub struct ConditionValidator;

impl ConditionValidator {
    /// Reports every blank command of the condition.
    pub fn validate(condition: &ConditionSpec) -> (r: ValidationResult)
        ensures
            r@ == condition_issues(*condition),
    {
        let mut result = ValidationResult::new();
        let context = String::from_str("condition");
        push_blank_command_issues(&mut result, &condition.cmds, &context, None);
        assert(result@ =~= condition_issues(*condition));
        result
    }
}

/// Validates tasks.
pub struct TaskValidator;

impl TaskValidator {
    /// Reports every problem of the task `task_name`: that it has no command;
    /// each blank command; each `choice` variable without options; each blank
    /// command of a precondition; each name in `audit.log_env` that the task
    /// does not declare, or declares as `secret`.
    pub fn validate(task_name: &str, task: &TaskSpec) -> (r: ValidationResult)
        ensures
            r@ == task_issues(task_name@, *task),
    {
        let mut result = ValidationResult::new();
        let mut context = String::from_str("task '");
        context.append(task_name);
        context.append("'");
        let ghost name = task_name@;
        assert(context@ == task_context(name));

        // At least one command.
        if task.cmds.len() == 0 {
            result.push(context.clone(), ValidationError::EmptyTask { task: String::from_str(task_name) });
        }

        // No blank command.
        push_blank_command_issues(&mut result, &task.cmds, &context, Some(task_name));

        // Variable declarations.
        let env_result = EnvironmentValidator::validate_map(&task.env, &context);
        result.merge(env_result);

        // Preconditions.
        let mut pre_context = context.clone();
        pre_context.append(" precondition");
        let ghost before_pre = result@;
        let mut i: usize = 0;
        while i < task.preconditions.len()
            invariant
                i <= task.preconditions@.len(),
                pre_context@ == precondition_context(name),
                result@ == before_pre + precondition_issues(
                    task.preconditions@.take(i as int),
                    pre_context@,
                ),
            decreases task.preconditions@.len() - i,
        {
            let ghost prefix = task.preconditions@.take(i + 1);
            assert(prefix.drop_last() =~= task.preconditions@.take(i as int));
            assert(prefix.last() == task.preconditions@[i as int]);
            let condition_result = ConditionValidator::validate(&task.preconditions[i]);
            let mut errs = condition_result.into_errors();
            let ghost found = issues_view(errs@);
            let ghost mapped = found.map_values(|p: IssueView| (pre_context@, p.1));
            let ghost start = result@;
            while errs.len() > 0
                invariant
                    errs@.len() <= found.len(),
                    issues_view(errs@) == found.subrange(found.len() - errs@.len(), found.len() as int),
                    result@ == start + mapped.take(found.len() - errs@.len()),
                    mapped == found.map_values(|p: IssueView| (pre_context@, p.1)),
                decreases errs@.len(),
            {
                let ghost k = found.len() - errs@.len();
                let ghost before_remove = errs@;
                assert(issues_view(errs@)[0] == errs@[0]@);
                let err = errs.remove(0);
                assert forall|t: int| 0 <= t < errs@.len() implies issues_view(errs@)[t] == found[k + 1 + t] by {
                    assert(errs@[t] == before_remove[t + 1]);
                    assert(issues_view(before_remove)[t + 1] == before_remove[t + 1]@);
                }
                assert(issues_view(errs@) =~= found.subrange(found.len() - errs@.len(), found.len() as int));
                result.push(pre_context.clone(), err.error);
                assert(mapped.take(k + 1) =~= mapped.take(k).push(mapped[k]));
            }
            assert(mapped.take(found.len() as int) =~= mapped);
            assert(result@ =~= before_pre + precondition_issues(prefix, pre_context@));
            i = i + 1;
        }
        assert(task.preconditions@.take(task.preconditions@.len() as int) =~= task.preconditions@);

        // audit.log_env must name declared, non-secret variables.
        let ghost before_audit = result@;
        match &task.audit {
            Some(audit) => {
                let mut j: usize = 0;
                while j < audit.log_env.len()
                    invariant
                        j <= audit.log_env@.len(),
                        name == task_name@,
                        context@ == task_context(name),
                        result@ == before_audit + log_env_issues(
                            audit.log_env@.take(j as int),
                            task.env@,
                            name,
                            context@,
                        ),
                    decreases audit.log_env@.len() - j,
                {
                    let ghost prefix = audit.log_env@.take(j + 1);
                    assert(prefix.drop_last() =~= audit.log_env@.take(j as int));
                    assert(prefix.last() == audit.log_env@[j as int]);
                    let var = &audit.log_env[j];
                    assert(log_env_issues(prefix, task.env@, name, context@) == log_env_issues(
                        audit.log_env@.take(j as int),
                        task.env@,
                        name,
                        context@,
                    ) + log_env_issue(var@, task.env@, name, context@));
                    match task.env.get(var) {
                        None => {
                            assert(log_env_issue(var@, task.env@, name, context@) =~= seq![
                                (context@, ValidationErrorView::AuditLogEnvUnknownVar { task: name, var: var@ }),
                            ]);
                            result.push(
                                context.clone(),
                                ValidationError::AuditLogEnvUnknownVar {
                                    task: String::from_str(task_name),
                                    var: var.clone(),
                                },
                            );
                        },
                        Some(spec) => {
                            assert(env_lookup(task.env@, var@) == Some(*spec));
                            if spec.var_type.is_sensitive() {
                                assert(log_env_issue(var@, task.env@, name, context@) =~= seq![
                                    (context@, ValidationErrorView::AuditLogEnvIsSecret { task: name, var: var@ }),
                                ]);
                                result.push(
                                    context.clone(),
                                    ValidationError::AuditLogEnvIsSecret {
                                        task: String::from_str(task_name),
                                        var: var.clone(),
                                    },
                                );
                            } else {
                                assert(log_env_issue(var@, task.env@, name, context@) =~= Seq::<IssueView>::empty());
                            }
                        },
                    }
                    assert(result@ =~= before_audit + log_env_issues(prefix, task.env@, name, context@));
                    j = j + 1;
                }
                assert(audit.log_env@.take(audit.log_env@.len() as int) =~= audit.log_env@);
            },
            None => {},
        }
        assert(result@ =~= task_issues(name, *task));
        result
    }
}

/// A task that the validator accepts, described directly: it has a command,
/// none of its commands is blank, every `choice` variable has options, no
/// precondition command is blank, and every name in `audit.log_env` is a
/// declared variable that is not a secret.
pub open spec fn task_acceptable(t: TaskSpec) -> bool {
    &&& t.cmds@.len() > 0
    &&& forall|i: int| 0 <= i < t.cmds@.len() ==> !is_blank_text(#[trigger] t.cmds@[i]@)
    &&& forall|i: int| 0 <= i < t.env@.len() ==> env_var_acceptable(#[trigger] t.env@[i].1)
    &&& forall|i: int, j: int|
        0 <= i < t.preconditions@.len() && 0 <= j < t.preconditions@[i].cmds@.len()
            ==> !is_blank_text(#[trigger] t.preconditions@[i].cmds@[j]@)
    &&& t.audit matches Some(a) ==> forall|i: int|
        0 <= i < a.log_env@.len() ==> log_env_var_acceptable(#[trigger] a.log_env@[i]@, t.env@)
}

/// A name in `audit.log_env` is acceptable when it names a declared variable
/// that is not a secret.
pub open spec fn log_env_var_acceptable(var: Seq<char>, env: Seq<(Seq<char>, EnvVarSpec)>) -> bool {
    match env_lookup(env, var) {
        Some(spec) => !var_type_is_sensitive(spec.var_type),
        None => false,
    }
}

proof fn lemma_blank_command_issues_empty(
    cmds: Seq<String>,
    context: Seq<char>,
    error: ValidationErrorView,
)
    ensures
        blank_command_issues(cmds, context, error).len() == 0 <==> forall|i: int|
            0 <= i < cmds.len() ==> !is_blank_text(#[trigger] cmds[i]@),
    decreases cmds.len(),
{
    if cmds.len() > 0 {
        let d = cmds.drop_last();
        lemma_blank_command_issues_empty(d, context, error);
        if forall|i: int| 0 <= i < cmds.len() ==> !is_blank_text(#[trigger] cmds[i]@) {
            assert forall|i: int| 0 <= i < d.len() implies !is_blank_text(#[trigger] d[i]@) by {
                assert(d[i] == cmds[i]);
            }
            assert(!is_blank_text(cmds[cmds.len() - 1]@));
        }
        if blank_command_issues(cmds, context, error).len() == 0 {
            assert forall|i: int| 0 <= i < cmds.len() implies !is_blank_text(#[trigger] cmds[i]@) by {
                if i < cmds.len() - 1 {
                    assert(d[i] == cmds[i]);
                }
            }
        }
    }
}

proof fn lemma_env_issues_empty(es: Seq<(Seq<char>, EnvVarSpec)>, context: Seq<char>)
    ensures
        env_issues(es, context).len() == 0 <==> forall|i: int|
            0 <= i < es.len() ==> env_var_acceptable(#[trigger] es[i].1),
    decreases es.len(),
{
    if es.len() > 0 {
        let d = es.drop_last();
        lemma_env_issues_empty(d, context);
        if forall|i: int| 0 <= i < es.len() ==> env_var_acceptable(#[trigger] es[i].1) {
            assert forall|i: int| 0 <= i < d.len() implies env_var_acceptable(#[trigger] d[i].1) by {
                assert(d[i] == es[i]);
            }
            assert(env_var_acceptable(es[es.len() - 1].1));
        }
        if env_issues(es, context).len() == 0 {
            assert forall|i: int| 0 <= i < es.len() implies env_var_acceptable(#[trigger] es[i].1) by {
                if i < es.len() - 1 {
                    assert(d[i] == es[i]);
                }
            }
        }
    }
}

proof fn lemma_precondition_issues_empty(conds: Seq<ConditionSpec>, context: Seq<char>)
    ensures
        precondition_issues(conds, context).len() == 0 <==> forall|i: int, j: int|
            0 <= i < conds.len() && 0 <= j < conds[i].cmds@.len() ==> !is_blank_text(
                #[trigger] conds[i].cmds@[j]@,
            ),
    decreases conds.len(),
{
    if conds.len() > 0 {
        let d = conds.drop_last();
        let c = conds.last();
        lemma_precondition_issues_empty(d, context);
        lemma_blank_command_issues_empty(c.cmds@, condition_context(), ValidationErrorView::EmptyConditionCommand);
        let all_ok = forall|i: int, j: int|
            0 <= i < conds.len() && 0 <= j < conds[i].cmds@.len() ==> !is_blank_text(
                #[trigger] conds[i].cmds@[j]@,
            );
        if all_ok {
            assert forall|i: int, j: int|
                0 <= i < d.len() && 0 <= j < d[i].cmds@.len() implies !is_blank_text(
                    #[trigger] d[i].cmds@[j]@,
                ) by {
                assert(d[i] == conds[i]);
            }
            assert forall|j: int| 0 <= j < c.cmds@.len() implies !is_blank_text(#[trigger] c.cmds@[j]@) by {
                assert(conds[conds.len() - 1] == c);
            }
        }
        if precondition_issues(conds, context).len() == 0 {
            assert forall|i: int, j: int|
                0 <= i < conds.len() && 0 <= j < conds[i].cmds@.len() implies !is_blank_text(
                    #[trigger] conds[i].cmds@[j]@,
                ) by {
                if i < conds.len() - 1 {
                    assert(d[i] == conds[i]);
                }
            }
        }
    }
}

proof fn lemma_log_env_issues_empty(
    vars: Seq<String>,
    env: Seq<(Seq<char>, EnvVarSpec)>,
    task: Seq<char>,
    context: Seq<char>,
)
    ensures
        log_env_issues(vars, env, task, context).len() == 0 <==> forall|i: int|
            0 <= i < vars.len() ==> log_env_var_acceptable(#[trigger] vars[i]@, env),
    decreases vars.len(),
{
    if vars.len() > 0 {
        let d = vars.drop_last();
        lemma_log_env_issues_empty(d, env, task, context);
        if forall|i: int| 0 <= i < vars.len() ==> log_env_var_acceptable(#[trigger] vars[i]@, env) {
            assert forall|i: int| 0 <= i < d.len() implies log_env_var_acceptable(#[trigger] d[i]@, env) by {
                assert(d[i] == vars[i]);
            }
            assert(log_env_var_acceptable(vars[vars.len() - 1]@, env));
        }
        if log_env_issues(vars, env, task, context).len() == 0 {
            assert forall|i: int| 0 <= i < vars.len() implies log_env_var_acceptable(#[trigger] vars[i]@, env) by {
                if i < vars.len() - 1 {
                    assert(d[i] == vars[i]);
                }
            }
        }
    }
}

/// The validator accepts a task (reports no problem) exactly when the task
/// is acceptable as [`task_acceptable`] describes it, whatever its name.
pub proof fn lemma_task_valid_iff_acceptable(name: Seq<char>, t: TaskSpec)
    ensures
        task_issues(name, t).len() == 0 <==> task_acceptable(t),
{
    let context = task_context(name);
    lemma_blank_command_issues_empty(t.cmds@, context, ValidationErrorView::EmptyCommandTask { task: name });
    lemma_env_issues_empty(t.env@, context);
    lemma_precondition_issues_empty(t.preconditions@, precondition_context(name));
    match t.audit {
        Some(a) => lemma_log_env_issues_empty(a.log_env@, t.env@, name, context),
        None => {},
    }
}

proof fn lemma_log_env_issues_contains(
    vars: Seq<String>,
    env: Seq<(Seq<char>, EnvVarSpec)>,
    task: Seq<char>,
    context: Seq<char>,
    i: int,
)
    requires
        0 <= i < vars.len(),
    ensures
        forall|p: IssueView|
            log_env_issue(vars[i]@, env, task, context).contains(p) ==> log_env_issues(
                vars,
                env,
                task,
                context,
            ).contains(p),
    decreases vars.len(),
{
    let d = vars.drop_last();
    let head = log_env_issues(d, env, task, context);
    let tail = log_env_issue(vars.last()@, env, task, context);
    assert forall|p: IssueView| head.contains(p) implies (head + tail).contains(p) by {
        let k = choose|k: int| 0 <= k < head.len() && head[k] == p;
        assert((head + tail)[k] == p);
    }
    assert forall|p: IssueView| tail.contains(p) implies (head + tail).contains(p) by {
        let k = choose|k: int| 0 <= k < tail.len() && tail[k] == p;
        assert((head + tail)[head.len() + k] == p);
    }
    assert(log_env_issues(vars, env, task, context) == head + tail);
    if i < vars.len() - 1 {
        lemma_log_env_issues_contains(d, env, task, context, i);
        assert(d[i] == vars[i]);
        assert forall|p: IssueView|
            log_env_issue(vars[i]@, env, task, context).contains(p) implies log_env_issues(
                vars,
                env,
                task,
                context,
            ).contains(p) by {
            assert(head.contains(p));
        }
    } else {
        assert(vars[i] == vars.last());
    }
}

/// Each name in a task's `audit.log_env` that the task does not declare is
/// reported as unknown, and each that the task declares as a secret is
/// reported as such: validation hard-rejects logging a secret's value.
pub proof fn lemma_log_env_rejections(name: Seq<char>, t: TaskSpec, i: int)
    requires
        t.audit is Some,
        0 <= i < t.audit->0.log_env@.len(),
    ensures
        ({
            let var = t.audit->0.log_env@[i]@;
            &&& env_lookup(t.env@, var) is None ==> task_issues(name, t).contains(
                (task_context(name), ValidationErrorView::AuditLogEnvUnknownVar { task: name, var }),
            )
            &&& (env_lookup(t.env@, var) matches Some(spec) && var_type_is_sensitive(spec.var_type))
                ==> task_issues(name, t).contains(
                (task_context(name), ValidationErrorView::AuditLogEnvIsSecret { task: name, var }),
            )
        }),
{
    let a = t.audit->0;
    let var = a.log_env@[i]@;
    let context = task_context(name);
    lemma_log_env_issues_contains(a.log_env@, t.env@, name, context, i);
    let issues = log_env_issue(var, t.env@, name, context);
    let all = log_env_issues(a.log_env@, t.env@, name, context);
    let front = (if t.cmds@.len() == 0 {
        seq![(context, ValidationErrorView::EmptyTask { task: name })]
    } else {
        Seq::empty()
    }) + blank_command_issues(t.cmds@, context, ValidationErrorView::EmptyCommandTask { task: name })
        + env_issues(t.env@, context) + precondition_issues(t.preconditions@, precondition_context(name));
    assert(task_issues(name, t) == front + all);
    let unknown = (context, ValidationErrorView::AuditLogEnvUnknownVar { task: name, var });
    let secret = (context, ValidationErrorView::AuditLogEnvIsSecret { task: name, var });
    if issues.len() > 0 {
        let p = issues[0];
        assert(issues.contains(p));
        assert(all.contains(p));
        let k = choose|k: int| 0 <= k < all.len() && all[k] == p;
        assert((front + all)[front.len() + k] == p);
        assert((front + all).contains(p));
        if env_lookup(t.env@, var) is None {
            assert(p == unknown);
        }
        if env_lookup(t.env@, var) matches Some(spec) && var_type_is_sensitive(spec.var_type) {
            assert(p == secret);
        }
    }
}

/// How many times `e` is reported in `s`.
pub open spec fn issue_count(s: Seq<IssueView>, e: ValidationErrorView) -> nat
    decreases s.len(),
{
    if s.len() == 0 {
        0
    } else {
        issue_count(s.drop_last(), e) + if s.last().1 == e {
            1nat
        } else {
            0nat
        }
    }
}

/// How many of `cmds` are blank.
pub open spec fn blank_count(cmds: Seq<String>) -> nat
    decreases cmds.len(),
{
    if cmds.len() == 0 {
        0
    } else {
        blank_count(cmds.drop_last()) + if is_blank_text(cmds.last()@) {
            1nat
        } else {
            0nat
        }
    }
}

/// How many times the name `v` occurs in `vars`.
pub open spec fn name_count(vars: Seq<String>, v: Seq<char>) -> nat
    decreases vars.len(),
{
    if vars.len() == 0 {
        0
    } else {
        name_count(vars.drop_last(), v) + if vars.last()@ == v {
            1nat
        } else {
            0nat
        }
    }
}

proof fn lemma_issue_count_concat(a: Seq<IssueView>, b: Seq<IssueView>, e: ValidationErrorView)
    ensures
        issue_count(a + b, e) == issue_count(a, e) + issue_count(b, e),
    decreases b.len(),
{
    if b.len() == 0 {
        assert(a + b =~= a);
    } else {
        lemma_issue_count_concat(a, b.drop_last(), e);
        assert((a + b).drop_last() =~= a + b.drop_last());
        assert((a + b).last() == b.last());
    }
}

proof fn lemma_issue_count_none(s: Seq<IssueView>, e: ValidationErrorView)
    requires
        forall|i: int| 0 <= i < s.len() ==> (#[trigger] s[i]).1 != e,
    ensures
        issue_count(s, e) == 0,
    decreases s.len(),
{
    if s.len() > 0 {
        let d = s.drop_last();
        assert forall|i: int| 0 <= i < d.len() implies (#[trigger] d[i]).1 != e by {
            assert(d[i] == s[i]);
        }
        lemma_issue_count_none(d, e);
        assert(s.last() == s[s.len() - 1]);
    }
}

proof fn lemma_blank_issues_count(
    cmds: Seq<String>,
    context: Seq<char>,
    error: ValidationErrorView,
    e: ValidationErrorView,
)
    ensures
        issue_count(blank_command_issues(cmds, context, error), e) == if e == error {
            blank_count(cmds)
        } else {
            0
        },
        forall|i: int|
            0 <= i < blank_command_issues(cmds, context, error).len() ==> #[trigger] blank_command_issues(
                cmds,
                context,
                error,
            )[i] == (context, error),
    decreases cmds.len(),
{
    if cmds.len() > 0 {
        let d = cmds.drop_last();
        let rest = blank_command_issues(d, context, error);
        lemma_blank_issues_count(d, context, error, e);
        if is_blank_text(cmds.last()@) {
            let s = rest.push((context, error));
            assert(s.drop_last() =~= rest);
            assert forall|i: int| 0 <= i < s.len() implies #[trigger] s[i] == (context, error) by {
                if i < rest.len() {
                    assert(s[i] == rest[i]);
                }
            }
        }
    }
}

proof fn lemma_env_issues_count(es: Seq<(Seq<char>, EnvVarSpec)>, context: Seq<char>, e: ValidationErrorView)
    requires
        !(e is ChoiceWithoutOptions),
    ensures
        issue_count(env_issues(es, context), e) == 0,
    decreases es.len(),
{
    if es.len() > 0 {
        let rest = env_issues(es.drop_last(), context);
        lemma_env_issues_count(es.drop_last(), context, e);
        if !env_var_acceptable(es.last().1) {
            let x = (context, ValidationErrorView::ChoiceWithoutOptions { var: es.last().0 });
            assert(rest.push(x).drop_last() =~= rest);
        }
    }
}

proof fn lemma_precondition_issues_count(conds: Seq<ConditionSpec>, context: Seq<char>, e: ValidationErrorView)
    requires
        e != ValidationErrorView::EmptyConditionCommand,
    ensures
        issue_count(precondition_issues(conds, context), e) == 0,
    decreases conds.len(),
{
    if conds.len() > 0 {
        let c = conds.last();
        let found = condition_issues(c);
        let mapped = found.map_values(|p: IssueView| (context, p.1));
        lemma_precondition_issues_count(conds.drop_last(), context, e);
        lemma_blank_issues_count(c.cmds@, condition_context(), ValidationErrorView::EmptyConditionCommand, e);
        assert forall|i: int| 0 <= i < mapped.len() implies (#[trigger] mapped[i]).1 != e by {
            assert(found[i] == (condition_context(), ValidationErrorView::EmptyConditionCommand));
        }
        lemma_issue_count_none(mapped, e);
        lemma_issue_count_concat(precondition_issues(conds.drop_last(), context), mapped, e);
    }
}

/// How many times `e` is reported for the single `log_env` entry `var`.
proof fn lemma_log_env_issue_count(
    var: Seq<char>,
    env: Seq<(Seq<char>, EnvVarSpec)>,
    task: Seq<char>,
    context: Seq<char>,
    e: ValidationErrorView,
)
    ensures
        issue_count(log_env_issue(var, env, task, context), e) == (if e
            == (ValidationErrorView::AuditLogEnvUnknownVar { task, var }) && env_lookup(env, var) is None {
            1nat
        } else if e == (ValidationErrorView::AuditLogEnvIsSecret { task, var }) && (env_lookup(
            env,
            var,
        ) matches Some(spec) && var_type_is_sensitive(spec.var_type)) {
            1nat
        } else {
            0nat
        }),
{
    let s = log_env_issue(var, env, task, context);
    assert(issue_count(Seq::<IssueView>::empty(), e) == 0);
    if s.len() > 0 {
        assert(s.drop_last() =~= Seq::<IssueView>::empty());
    }
}

proof fn lemma_log_env_issues_count(
    vars: Seq<String>,
    env: Seq<(Seq<char>, EnvVarSpec)>,
    task: Seq<char>,
    context: Seq<char>,
    v: Seq<char>,
)
    ensures
        issue_count(log_env_issues(vars, env, task, context), ValidationErrorView::AuditLogEnvUnknownVar {
            task,
            var: v,
        }) == if env_lookup(env, v) is None {
            name_count(vars, v)
        } else {
            0
        },
        issue_count(log_env_issues(vars, env, task, context), ValidationErrorView::AuditLogEnvIsSecret {
            task,
            var: v,
        }) == if env_lookup(env, v) matches Some(spec) && var_type_is_sensitive(spec.var_type) {
            name_count(vars, v)
        } else {
            0
        },
        issue_count(log_env_issues(vars, env, task, context), ValidationErrorView::EmptyTask { task }) == 0,
        issue_count(log_env_issues(vars, env, task, context), ValidationErrorView::EmptyCommandTask { task })
            == 0,
    decreases vars.len(),
{
    if vars.len() > 0 {
        let d = vars.drop_last();
        let x = vars.last()@;
        lemma_log_env_issues_count(d, env, task, context, v);
        let rest = log_env_issues(d, env, task, context);
        let last = log_env_issue(x, env, task, context);
        lemma_issue_count_concat(rest, last, ValidationErrorView::AuditLogEnvUnknownVar { task, var: v });
        lemma_issue_count_concat(rest, last, ValidationErrorView::AuditLogEnvIsSecret { task, var: v });
        lemma_issue_count_concat(rest, last, ValidationErrorView::EmptyTask { task });
        lemma_issue_count_concat(rest, last, ValidationErrorView::EmptyCommandTask { task });
        lemma_log_env_issue_count(x, env, task, context, ValidationErrorView::AuditLogEnvUnknownVar { task, var: v });
        lemma_log_env_issue_count(x, env, task, context, ValidationErrorView::AuditLogEnvIsSecret { task, var: v });
        lemma_log_env_issue_count(x, env, task, context, ValidationErrorView::EmptyTask { task });
        lemma_log_env_issue_count(x, env, task, context, ValidationErrorView::EmptyCommandTask { task });
    }
}

/// How many times each kind of problem is reported for the task `t` named
/// `name`: no command once exactly when the task has none; a blank command
/// once per blank command; an unknown `log_env` variable `v` once per
/// listing of `v` when the task does not declare it; a secret `log_env`
/// variable `v` once per listing of `v` when the task declares it secret.
pub proof fn lemma_task_issue_counts(name: Seq<char>, t: TaskSpec, v: Seq<char>)
    ensures
        issue_count(task_issues(name, t), ValidationErrorView::EmptyTask { task: name }) == if t.cmds@.len()
            == 0 {
            1nat
        } else {
            0nat
        },
        issue_count(task_issues(name, t), ValidationErrorView::EmptyCommandTask { task: name })
            == blank_count(t.cmds@),
        issue_count(task_issues(name, t), ValidationErrorView::AuditLogEnvUnknownVar { task: name, var: v })
            == if env_lookup(t.env@, v) is None {
            match t.audit {
                Some(a) => name_count(a.log_env@, v),
                None => 0,
            }
        } else {
            0
        },
        issue_count(task_issues(name, t), ValidationErrorView::AuditLogEnvIsSecret { task: name, var: v })
            == if env_lookup(t.env@, v) matches Some(spec) && var_type_is_sensitive(spec.var_type) {
            match t.audit {
                Some(a) => name_count(a.log_env@, v),
                None => 0,
            }
        } else {
            0
        },
{
    let context = task_context(name);
    let head: Seq<IssueView> = if t.cmds@.len() == 0 {
        seq![(context, ValidationErrorView::EmptyTask { task: name })]
    } else {
        Seq::empty()
    };
    assert(issue_count(Seq::<IssueView>::empty(), ValidationErrorView::EmptyTask { task: name }) == 0);
    assert(issue_count(Seq::<IssueView>::empty(), ValidationErrorView::EmptyCommandTask { task: name }) == 0);
    assert(issue_count(Seq::<IssueView>::empty(), ValidationErrorView::AuditLogEnvUnknownVar { task: name, var: v }) == 0);
    assert(issue_count(Seq::<IssueView>::empty(), ValidationErrorView::AuditLogEnvIsSecret { task: name, var: v }) == 0);
    if head.len() > 0 {
        assert(head.drop_last() =~= Seq::<IssueView>::empty());
    }
    match t.audit {
        Some(a) => lemma_log_env_issues_count(a.log_env@, t.env@, name, context, v),
        None => {},
    }
    lemma_task_issue_count_parts(name, t, ValidationErrorView::EmptyTask { task: name });
    lemma_task_issue_count_parts(name, t, ValidationErrorView::EmptyCommandTask { task: name });
    lemma_task_issue_count_parts(name, t, ValidationErrorView::AuditLogEnvUnknownVar { task: name, var: v });
    lemma_task_issue_count_parts(name, t, ValidationErrorView::AuditLogEnvIsSecret { task: name, var: v });
}

/// The count of `e` in a task's problems is the sum of its counts in the
/// five parts the validator reports; outside the variable and precondition
/// parts, only for their own kinds of problem.
proof fn lemma_task_issue_count_parts(name: Seq<char>, t: TaskSpec, e: ValidationErrorView)
    requires
        !(e is ChoiceWithoutOptions),
        e != ValidationErrorView::EmptyConditionCommand,
    ensures
        issue_count(task_issues(name, t), e) == issue_count(
            if t.cmds@.len() == 0 {
                seq![(task_context(name), ValidationErrorView::EmptyTask { task: name })]
            } else {
                Seq::empty()
            },
            e,
        ) + (if e == (ValidationErrorView::EmptyCommandTask { task: name }) {
            blank_count(t.cmds@)
        } else {
            0
        }) + match t.audit {
            None => 0,
            Some(a) => issue_count(log_env_issues(a.log_env@, t.env@, name, task_context(name)), e),
        },
{
    let context = task_context(name);
    let head: Seq<IssueView> = if t.cmds@.len() == 0 {
        seq![(context, ValidationErrorView::EmptyTask { task: name })]
    } else {
        Seq::empty()
    };
    let blanks = blank_command_issues(t.cmds@, context, ValidationErrorView::EmptyCommandTask { task: name });
    let envs = env_issues(t.env@, context);
    let pres = precondition_issues(t.preconditions@, precondition_context(name));
    let logs = match t.audit {
        None => Seq::<IssueView>::empty(),
        Some(a) => log_env_issues(a.log_env@, t.env@, name, context),
    };
    assert(task_issues(name, t) == head + blanks + envs + pres + logs);
    lemma_issue_count_concat(head, blanks, e);
    lemma_issue_count_concat(head + blanks, envs, e);
    lemma_issue_count_concat(head + blanks + envs, pres, e);
    lemma_issue_count_concat(head + blanks + envs + pres, logs, e);
    lemma_blank_issues_count(t.cmds@, context, ValidationErrorView::EmptyCommandTask { task: name }, e);
    lemma_env_issues_count(t.env@, context, e);
    lemma_precondition_issues_count(t.preconditions@, precondition_context(name), e);
    assert(issue_count(Seq::<IssueView>::empty(), e) == 0);
}

/// How many declarations of `es` are named `v` and are not acceptable (a
/// `choice` without options).
pub open spec fn unacceptable_named(es: Seq<(Seq<char>, EnvVarSpec)>, v: Seq<char>) -> nat
    decreases es.len(),
{
    if es.len() == 0 {
        0
    } else {
        unacceptable_named(es.drop_last(), v) + if es.last().0 == v && !env_var_acceptable(es.last().1) {
            1nat
        } else {
            0nat
        }
    }
}

/// How many times the problem `p` (place and error) occurs in `s`.
pub open spec fn pair_count(s: Seq<IssueView>, p: IssueView) -> nat
    decreases s.len(),
{
    if s.len() == 0 {
        0
    } else {
        pair_count(s.drop_last(), p) + if s.last() == p {
            1nat
        } else {
            0nat
        }
    }
}

proof fn lemma_pair_count_concat(a: Seq<IssueView>, b: Seq<IssueView>, p: IssueView)
    ensures
        pair_count(a + b, p) == pair_count(a, p) + pair_count(b, p),
    decreases b.len(),
{
    if b.len() == 0 {
        assert(a + b =~= a);
    } else {
        lemma_pair_count_concat(a, b.drop_last(), p);
        assert((a + b).drop_last() =~= a + b.drop_last());
        assert((a + b).last() == b.last());
    }
}

proof fn lemma_pair_count_le(s: Seq<IssueView>, p: IssueView)
    ensures
        pair_count(s, p) <= issue_count(s, p.1),
    decreases s.len(),
{
    if s.len() > 0 {
        lemma_pair_count_le(s.drop_last(), p);
    }
}

proof fn lemma_env_issues_choice_count(es: Seq<(Seq<char>, EnvVarSpec)>, context: Seq<char>, v: Seq<char>)
    ensures
        pair_count(env_issues(es, context), (context, ValidationErrorView::ChoiceWithoutOptions { var: v }))
            == unacceptable_named(es, v),
        issue_count(env_issues(es, context), ValidationErrorView::ChoiceWithoutOptions { var: v })
            == unacceptable_named(es, v),
    decreases es.len(),
{
    if es.len() > 0 {
        let d = es.drop_last();
        let rest = env_issues(d, context);
        lemma_env_issues_choice_count(d, context, v);
        if !env_var_acceptable(es.last().1) {
            let x = (context, ValidationErrorView::ChoiceWithoutOptions { var: es.last().0 });
            assert(rest.push(x).drop_last() =~= rest);
        }
    }
}

proof fn lemma_log_env_issues_other(
    vars: Seq<String>,
    env: Seq<(Seq<char>, EnvVarSpec)>,
    task: Seq<char>,
    context: Seq<char>,
    e: ValidationErrorView,
)
    requires
        !(e is AuditLogEnvUnknownVar),
        !(e is AuditLogEnvIsSecret),
    ensures
        issue_count(log_env_issues(vars, env, task, context), e) == 0,
    decreases vars.len(),
{
    if vars.len() > 0 {
        let d = vars.drop_last();
        lemma_log_env_issues_other(d, env, task, context, e);
        lemma_issue_count_concat(
            log_env_issues(d, env, task, context),
            log_env_issue(vars.last()@, env, task, context),
            e,
        );
        lemma_log_env_issue_count(vars.last()@, env, task, context, e);
    }
}

/// Every declaration named `v` that is a `choice` without options is
/// reported once, as `ChoiceWithoutOptions { var: v }` at the task's place;
/// nothing else reports that error.
pub proof fn lemma_choice_without_options_count(name: Seq<char>, t: TaskSpec, v: Seq<char>)
    ensures
        pair_count(
            task_issues(name, t),
            (task_context(name), ValidationErrorView::ChoiceWithoutOptions { var: v }),
        ) == unacceptable_named(t.env@, v),
        issue_count(task_issues(name, t), ValidationErrorView::ChoiceWithoutOptions { var: v })
            == unacceptable_named(t.env@, v),
{
    let context = task_context(name);
    let e = ValidationErrorView::ChoiceWithoutOptions { var: v };
    let p = (context, e);
    let head: Seq<IssueView> = if t.cmds@.len() == 0 {
        seq![(context, ValidationErrorView::EmptyTask { task: name })]
    } else {
        Seq::empty()
    };
    let blanks = blank_command_issues(t.cmds@, context, ValidationErrorView::EmptyCommandTask { task: name });
    let envs = env_issues(t.env@, context);
    let pres = precondition_issues(t.preconditions@, precondition_context(name));
    let logs = match t.audit {
        None => Seq::<IssueView>::empty(),
        Some(a) => log_env_issues(a.log_env@, t.env@, name, context),
    };
    assert(task_issues(name, t) == head + blanks + envs + pres + logs);
    lemma_issue_count_concat(head, blanks, e);
    lemma_issue_count_concat(head + blanks, envs, e);
    lemma_issue_count_concat(head + blanks + envs, pres, e);
    lemma_issue_count_concat(head + blanks + envs + pres, logs, e);
    lemma_pair_count_concat(head, blanks, p);
    lemma_pair_count_concat(head + blanks, envs, p);
    lemma_pair_count_concat(head + blanks + envs, pres, p);
    lemma_pair_count_concat(head + blanks + envs + pres, logs, p);
    assert(issue_count(Seq::<IssueView>::empty(), e) == 0);
    if head.len() > 0 {
        assert(head.drop_last() =~= Seq::<IssueView>::empty());
    }
    lemma_blank_issues_count(t.cmds@, context, ValidationErrorView::EmptyCommandTask { task: name }, e);
    lemma_env_issues_choice_count(t.env@, context, v);
    lemma_precondition_issues_count(t.preconditions@, precondition_context(name), e);
    match t.audit {
        Some(a) => lemma_log_env_issues_other(a.log_env@, t.env@, name, context, e),
        None => {},
    }
    lemma_pair_count_le(head, p);
    lemma_pair_count_le(blanks, p);
    lemma_pair_count_le(pres, p);
    lemma_pair_count_le(logs, p);
}

proof fn lemma_unacceptable_named_absent(es: Seq<(Seq<char>, EnvVarSpec)>, v: Seq<char>)
    requires
        forall|i: int| 0 <= i < es.len() ==> (#[trigger] es[i]).0 != v,
    ensures
        unacceptable_named(es, v) == 0,
    decreases es.len(),
{
    if es.len() > 0 {
        let d = es.drop_last();
        assert forall|i: int| 0 <= i < d.len() implies (#[trigger] d[i]).0 != v by {
            assert(d[i] == es[i]);
        }
        lemma_unacceptable_named_absent(d, v);
        assert(es.last() == es[es.len() - 1]);
    }
}

/// With each name declared once, the declaration named `v` counts as not
/// acceptable exactly when it exists and is a `choice` without options.
pub proof fn lemma_unacceptable_named_distinct(es: Seq<(Seq<char>, EnvVarSpec)>, v: Seq<char>)
    requires
        env_names_distinct(es),
    ensures
        unacceptable_named(es, v) == if env_lookup(es, v) matches Some(s) && !env_var_acceptable(s) {
            1nat
        } else {
            0nat
        },
    decreases es.len(),
{
    if es.len() > 0 {
        let d = es.drop_last();
        assert(env_names_distinct(d)) by {
            assert forall|i: int, j: int| 0 <= i < j < d.len() implies d[i].0 != d[j].0 by {
                assert(d[i] == es[i] && d[j] == es[j]);
            }
        }
        if es.last().0 == v {
            assert forall|i: int| 0 <= i < d.len() implies (#[trigger] d[i]).0 != v by {
                assert(d[i] == es[i]);
                assert(es[es.len() - 1] == es.last());
            }
            lemma_unacceptable_named_absent(d, v);
            assert(env_index_of(es, v) == es.len() - 1);
            assert(es[es.len() - 1] == es.last());
        } else {
            lemma_unacceptable_named_distinct(d, v);
            assert(env_index_of(es, v) == env_index_of(d, v));
            lemma_env_index_of(d, v);
            if env_index_of(d, v) >= 0 {
                assert(es[env_index_of(d, v)] == d[env_index_of(d, v)]);
            }
        }
    }
}

/// A task reports `ChoiceWithoutOptions { var: v }`, at its own place, once
/// when it declares `v` as a `choice` without options, and never otherwise.
pub proof fn lemma_choice_without_options_reported_once(name: Seq<char>, t: TaskSpec, v: Seq<char>)
    requires
        env_names_distinct(t.env@),
    ensures
        pair_count(
            task_issues(name, t),
            (task_context(name), ValidationErrorView::ChoiceWithoutOptions { var: v }),
        ) == if env_lookup(t.env@, v) matches Some(s) && s.var_type == VarType::Choice
            && s.options@.len() == 0 {
            1nat
        } else {
            0nat
        },
        issue_count(task_issues(name, t), ValidationErrorView::ChoiceWithoutOptions { var: v }) == if env_lookup(
            t.env@,
            v,
        ) matches Some(s) && s.var_type == VarType::Choice && s.options@.len() == 0 {
            1nat
        } else {
            0nat
        },
{
    lemma_choice_without_options_count(name, t, v);
    lemma_unacceptable_named_distinct(t.env@, v);
}

} // verus!
