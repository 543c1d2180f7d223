//! Script validation.
//!
//! Checks that a compiled script defines the functions its kind of script must provide,
//! with the expected number of parameters.

use vstd::prelude::*;
use crate::text::{owned, append_str, str_eq, str_contains, u64_to_decimal, decimal, seq_contains};

pub mod contracts;

verus! {

/// Contract defining expected functions for a script type.
#[derive(Debug)]
pub struct ScriptContract {
    /// Functions that must be present
    pub required: Vec<FunctionSpec>,
    /// Functions that are optional but recognized
    pub optional: Vec<FunctionSpec>,
}

/// Specification of an expected function.
#[derive(Debug)]
pub struct FunctionSpec {
    /// Function name
    pub name: String,
    /// Expected number of parameters (None = any)
    pub param_count: Option<usize>,
    /// Description for error messages
    pub description: String,
}

impl Clone for FunctionSpec {
    fn clone(&self) -> (r: Self)
        ensures
            r == *self,
    {
        FunctionSpec { name: self.name.clone(), param_count: self.param_count, description: self.description.clone() }
    }
}

/// The plain content of a function specification: name, parameter count, description.
pub open spec fn spec_view(f: FunctionSpec) -> (Seq<char>, Option<usize>, Seq<char>) {
    (f.name@, f.param_count, f.description@)
}

/// The plain content of a list of specifications.
pub open spec fn specs_view(fs: Seq<FunctionSpec>) -> Seq<(Seq<char>, Option<usize>, Seq<char>)> {
    fs.map_values(|f: FunctionSpec| spec_view(f))
}

/// The plain content of a contract: its required and optional specifications.
pub open spec fn contract_view(c: ScriptContract) -> (Seq<(Seq<char>, Option<usize>, Seq<char>)>, Seq<(Seq<char>, Option<usize>, Seq<char>)>) {
    (specs_view(c.required@), specs_view(c.optional@))
}

impl FunctionSpec {
    /// A new function specification.
    pub fn new(name: &str, param_count: Option<usize>, description: &str) -> (r: Self)
        ensures
            spec_view(r) == (name@, param_count, description@),
    {
        FunctionSpec { name: owned(name), param_count, description: owned(description) }
    }

    /// A specification requiring an exact parameter count.
    pub fn with_params(name: &str, params: usize, description: &str) -> (r: Self)
        ensures
            spec_view(r) == (name@, Some(params), description@),
    {
        Self::new(name, Some(params), description)
    }

    /// A specification accepting any parameter count.
    pub fn any_params(name: &str, description: &str) -> (r: Self)
        ensures
            spec_view(r) == (name@, None::<usize>, description@),
    {
        Self::new(name, None, description)
    }
}

/// Result of validating a script.
#[derive(Debug)]
pub struct ValidationResult {
    /// Script name that was validated
    pub script: String,
    /// Missing required functions
    pub missing_required: Vec<FunctionSpec>,
    /// Functions with wrong parameter counts
    pub wrong_params: Vec<(FunctionSpec, usize)>,
    /// Warnings (non-fatal issues)
    pub warnings: Vec<String>,
}

/// The lines reporting missing functions.
pub open spec fn missing_lines(fs: Seq<FunctionSpec>) -> Seq<char>
    decreases fs.len(),
{
    if fs.len() == 0 {
        Seq::empty()
    } else {
        missing_lines(fs.drop_last()) + "\n  - Missing required function: "@ + fs.last().name@ + " ("@
            + fs.last().description@ + ")"@
    }
}

/// The expected parameter count shown in messages (0 when any count is accepted).
pub open spec fn shown_count(c: Option<usize>) -> nat {
    match c {
        Some(n) => n as nat,
        None => 0,
    }
}

/// The lines reporting functions with the wrong number of parameters.
pub open spec fn wrong_lines(ws: Seq<(FunctionSpec, usize)>) -> Seq<char>
    decreases ws.len(),
{
    if ws.len() == 0 {
        Seq::empty()
    } else {
        let (f, actual) = ws.last();
        wrong_lines(ws.drop_last()) + "\n  - Function '"@ + f.name@ + "' has "@ + decimal(actual as nat)
            + " parameters, expected "@ + decimal(shown_count(f.param_count)) + " ("@ + f.description@ + ")"@
    }
}

/// The full failure message of a result.
pub open spec fn failure_message(r: ValidationResult) -> Seq<char> {
    "Script '"@ + r.script@ + "' validation failed:"@ + missing_lines(r.missing_required@) + wrong_lines(r.wrong_params@)
}

impl ValidationResult {
    /// An empty result for `script`.
    pub fn new(script: &str) -> (r: Self)
        ensures
            r.script@ == script@,
            r.missing_required@.len() == 0,
            r.wrong_params@.len() == 0,
            r.warnings@.len() == 0,
    {
        ValidationResult {
            script: owned(script),
            missing_required: Vec::new(),
            wrong_params: Vec::new(),
            warnings: Vec::new(),
        }
    }

    /// Validation passed: nothing required is missing and no parameter count is wrong.
    pub fn is_valid(&self) -> (r: bool)
        ensures
            r == (self.missing_required@.len() == 0 && self.wrong_params@.len() == 0),
    {
        self.missing_required.is_empty() && self.wrong_params.is_empty()
    }

    /// The failure message, or `None` when validation passed.
    pub fn error_message(&self) -> (r: Option<String>)
        ensures
            (self.missing_required@.len() == 0 && self.wrong_params@.len() == 0) ==> r is None,
            !(self.missing_required@.len() == 0 && self.wrong_params@.len() == 0) ==> (r matches Some(m)
                && m@ == failure_message(*self)),
    {
        if self.is_valid() {
            return None;
        }
        let mut msg = owned("Script '");
        append_str(&mut msg, self.script.as_str());
        append_str(&mut msg, "' validation failed:");
        let ghost head = msg@;
        let mut i: usize = 0;
        while i < self.missing_required.len()
            invariant
                i <= self.missing_required@.len(),
                msg@ == head + missing_lines(self.missing_required@.subrange(0, i as int)),
            decreases self.missing_required@.len() - i,
        {
            let f = &self.missing_required[i];
            assert(self.missing_required@.subrange(0, i + 1).drop_last() =~= self.missing_required@.subrange(0, i as int));
            append_str(&mut msg, "\n  - Missing required function: ");
            append_str(&mut msg, f.name.as_str());
            append_str(&mut msg, " (");
            append_str(&mut msg, f.description.as_str());
            append_str(&mut msg, ")");
            i = i + 1;
            assert(msg@ =~= head + missing_lines(self.missing_required@.subrange(0, i as int)));
        }
        assert(self.missing_required@.subrange(0, i as int) =~= self.missing_required@);
        let ghost mid = msg@;
        let mut j: usize = 0;
        while j < self.wrong_params.len()
            invariant
                j <= self.wrong_params@.len(),
                msg@ == mid + wrong_lines(self.wrong_params@.subrange(0, j as int)),
            decreases self.wrong_params@.len() - j,
        {
            let (f, actual) = &self.wrong_params[j];
            assert(self.wrong_params@.subrange(0, j + 1).drop_last() =~= self.wrong_params@.subrange(0, j as int));
            let expected: usize = match f.param_count {
                Some(n) => n,
                None => 0,
            };
            let actual_text = u64_to_decimal(*actual as u64);
            let expected_text = u64_to_decimal(expected as u64);
            append_str(&mut msg, "\n  - Function '");
            append_str(&mut msg, f.name.as_str());
            append_str(&mut msg, "' has ");
            append_str(&mut msg, actual_text.as_str());
            append_str(&mut msg, " parameters, expected ");
            append_str(&mut msg, expected_text.as_str());
            append_str(&mut msg, " (");
            append_str(&mut msg, f.description.as_str());
            append_str(&mut msg, ")");
            j = j + 1;
            assert(msg@ =~= mid + wrong_lines(self.wrong_params@.subrange(0, j as int)));
        }
        assert(self.wrong_params@.subrange(0, j as int) =~= self.wrong_params@);
        assert(msg@ =~= failure_message(*self));
        Some(msg)
    }
}

/// A function a compiled script defines: its name and number of parameters.
#[derive(Debug)]
pub struct ScriptFunctionInfo {
    /// Function name
    pub name: String,
    /// Number of parameters
    pub param_count: usize,
}

/// Index of the first function called `name` in `fns`, or -1.
pub open spec fn first_fn(fns: Seq<ScriptFunctionInfo>, name: Seq<char>) -> int
    decreases fns.len(),
{
    if fns.len() == 0 {
        -1
    } else {
        let r = first_fn(fns.drop_last(), name);
        if r >= 0 { r } else if fns.last().name@ == name { fns.len() - 1 } else { -1 }
    }
}

proof fn lemma_first_fn(fns: Seq<ScriptFunctionInfo>, name: Seq<char>)
    ensures
        -1 <= first_fn(fns, name) < fns.len(),
        first_fn(fns, name) >= 0 ==> fns[first_fn(fns, name)].name@ == name,
        first_fn(fns, name) >= 0 ==> forall|j: int| 0 <= j < first_fn(fns, name) ==> fns[j].name@ != name,
        first_fn(fns, name) < 0 ==> forall|j: int| 0 <= j < fns.len() ==> fns[j].name@ != name,
    decreases fns.len(),
{
    if fns.len() > 0 {
        lemma_first_fn(fns.drop_last(), name);
        assert(forall|j: int| 0 <= j < fns.len() - 1 ==> fns.drop_last()[j] == fns[j]);
    }
}

/// Required functions that the script does not define, in contract order.
pub open spec fn missing_of(fns: Seq<ScriptFunctionInfo>, reqs: Seq<FunctionSpec>) -> Seq<FunctionSpec>
    decreases reqs.len(),
{
    if reqs.len() == 0 {
        Seq::empty()
    } else {
        let r = missing_of(fns, reqs.drop_last());
        if first_fn(fns, reqs.last().name@) < 0 { r.push(reqs.last()) } else { r }
    }
}

/// Required functions defined with a parameter count other than the expected one, with the
/// count found, in contract order.
pub open spec fn wrong_of(fns: Seq<ScriptFunctionInfo>, reqs: Seq<FunctionSpec>) -> Seq<(FunctionSpec, usize)>
    decreases reqs.len(),
{
    if reqs.len() == 0 {
        Seq::empty()
    } else {
        let r = wrong_of(fns, reqs.drop_last());
        let s = reqs.last();
        let i = first_fn(fns, s.name@);
        if i >= 0 && s.param_count is Some && fns[i].param_count != s.param_count->0 {
            r.push((s, fns[i].param_count))
        } else {
            r
        }
    }
}

/// What `wrong_of` lists, entry by entry: a required function whose first definition has a
/// parameter count other than the expected one, with that count.
proof fn lemma_wrong_of_contains(fns: Seq<ScriptFunctionInfo>, reqs: Seq<FunctionSpec>)
    ensures
        forall|x: (FunctionSpec, usize)| #[trigger] wrong_of(fns, reqs).contains(x) <==> {
            &&& reqs.contains(x.0)
            &&& first_fn(fns, x.0.name@) >= 0
            &&& x.0.param_count is Some
            &&& fns[first_fn(fns, x.0.name@)].param_count == x.1
            &&& x.1 != x.0.param_count->0
        },
    decreases reqs.len(),
{
    if reqs.len() > 0 {
        let t = reqs.drop_last();
        lemma_wrong_of_contains(fns, t);
        assert forall|x: (FunctionSpec, usize)| #[trigger] wrong_of(fns, reqs).contains(x) <==> {
            &&& reqs.contains(x.0)
            &&& first_fn(fns, x.0.name@) >= 0
            &&& x.0.param_count is Some
            &&& fns[first_fn(fns, x.0.name@)].param_count == x.1
            &&& x.1 != x.0.param_count->0
        } by {
            broadcast use vstd::seq_lib::lemma_seq_contains_after_push;
            assert(reqs =~= t.push(reqs.last()));
            let w = wrong_of(fns, t);
            let sl = reqs.last();
            let i = first_fn(fns, sl.name@);
            assert(wrong_of(fns, reqs) == if i >= 0 && sl.param_count is Some && fns[i].param_count != sl.param_count->0 {
                w.push((sl, fns[i].param_count))
            } else {
                w
            });
            if reqs.contains(x.0) && !t.contains(x.0) {
                let j = choose|j: int| 0 <= j < reqs.len() && reqs[j] == x.0;
                if j < reqs.len() - 1 {
                    assert(t[j] == x.0);
                }
                assert(x.0 == reqs.last());
            }
            if t.contains(x.0) {
                let j = choose|j: int| 0 <= j < t.len() && t[j] == x.0;
                assert(reqs[j] == x.0);
            }
        }
    }
}

/// A required function that the script defines is reported with a wrong parameter count
/// exactly when its (first) definition's count differs from the one the contract expects;
/// a required function the script does not define is reported missing, and one it defines
/// is not.
pub proof fn law_wrong_params_exactly_when_counts_differ(fns: Seq<ScriptFunctionInfo>, reqs: Seq<FunctionSpec>, j: int, i: int)
    requires
        0 <= j < reqs.len(),
        0 <= i < fns.len(),
        fns[i].name@ == reqs[j].name@,
        forall|k: int| 0 <= k < i ==> fns[k].name@ != reqs[j].name@,
        reqs[j].param_count is Some,
    ensures
        wrong_of(fns, reqs).contains((reqs[j], fns[i].param_count)) <==> fns[i].param_count != reqs[j].param_count->0,
        !missing_of(fns, reqs).contains(reqs[j]),
{
    lemma_first_fn(fns, reqs[j].name@);
    let f = first_fn(fns, reqs[j].name@);
    if f != i {
        if f > i {
        } else if f >= 0 {
        }
    }
    assert(f == i);
    lemma_wrong_of_contains(fns, reqs);
    assert(reqs.contains(reqs[j]));
    lemma_missing_of_contains(fns, reqs);
}

/// What `missing_of` lists: the required functions that the script does not define.
proof fn lemma_missing_of_contains(fns: Seq<ScriptFunctionInfo>, reqs: Seq<FunctionSpec>)
    ensures
        forall|x: FunctionSpec| #[trigger] missing_of(fns, reqs).contains(x) <==> reqs.contains(x) && first_fn(fns, x.name@) < 0,
    decreases reqs.len(),
{
    if reqs.len() > 0 {
        let t = reqs.drop_last();
        lemma_missing_of_contains(fns, t);
        assert forall|x: FunctionSpec| #[trigger] missing_of(fns, reqs).contains(x) <==> reqs.contains(x) && first_fn(fns, x.name@) < 0 by {
            broadcast use vstd::seq_lib::lemma_seq_contains_after_push;
            assert(reqs =~= t.push(reqs.last()));
            let w = missing_of(fns, t);
            assert(missing_of(fns, reqs) == if first_fn(fns, reqs.last().name@) < 0 { w.push(reqs.last()) } else { w });
            if reqs.contains(x) && !t.contains(x) {
                let j = choose|j: int| 0 <= j < reqs.len() && reqs[j] == x;
                if j < reqs.len() - 1 {
                    assert(t[j] == x);
                }
            }
            if t.contains(x) {
                let j = choose|j: int| 0 <= j < t.len() && t[j] == x;
                assert(reqs[j] == x);
            }
        }
    }
}

/// A required function the script does not define at all is reported missing, and none of
/// its entries is reported with a wrong parameter count.
pub proof fn law_undefined_required_is_missing(fns: Seq<ScriptFunctionInfo>, reqs: Seq<FunctionSpec>, j: int)
    requires
        0 <= j < reqs.len(),
        forall|k: int| 0 <= k < fns.len() ==> fns[k].name@ != reqs[j].name@,
    ensures
        missing_of(fns, reqs).contains(reqs[j]),
        forall|p: usize| !#[trigger] wrong_of(fns, reqs).contains((reqs[j], p)),
{
    lemma_first_fn(fns, reqs[j].name@);
    lemma_missing_of_contains(fns, reqs);
    lemma_wrong_of_contains(fns, reqs);
    assert(reqs.contains(reqs[j]));
}

/// The warning for an optional function with an unexpected parameter count.
pub open spec fn optional_warning(s: FunctionSpec, found: usize) -> Seq<char> {
    "Optional function '"@ + s.name@ + "' has "@ + decimal(found as nat) + " parameters, expected "@
        + decimal(shown_count(s.param_count)) + " ("@ + s.description@ + ")"@
}

/// Warnings for optional functions defined with an unexpected parameter count, in contract order.
pub open spec fn warnings_of(fns: Seq<ScriptFunctionInfo>, opts: Seq<FunctionSpec>) -> Seq<Seq<char>>
    decreases opts.len(),
{
    if opts.len() == 0 {
        Seq::empty()
    } else {
        let r = warnings_of(fns, opts.drop_last());
        let s = opts.last();
        let i = first_fn(fns, s.name@);
        if i >= 0 && s.param_count is Some && fns[i].param_count != s.param_count->0 {
            r.push(optional_warning(s, fns[i].param_count))
        } else {
            r
        }
    }
}

/// The position of the first function called `name`.
fn find_function(fns: &Vec<ScriptFunctionInfo>, name: &str) -> (r: Option<usize>)
    ensures
        r is None <==> first_fn(fns@, name@) < 0,
        r matches Some(i) ==> i == first_fn(fns@, name@) && i < fns@.len(),
{
    proof { lemma_first_fn(fns@, name@); }
    let mut i: usize = 0;
    while i < fns.len()
        invariant
            i <= fns@.len(),
            forall|j: int| 0 <= j < i ==> fns@[j].name@ != name@,
        decreases fns@.len() - i,
    {
        if str_eq(fns[i].name.as_str(), name) {
            proof { lemma_first_fn(fns@, name@); }
            return Some(i);
        }
        i = i + 1;
    }
    proof { lemma_first_fn(fns@, name@); }
    None
}

/// Validates the functions a script defines against a contract: required functions must
/// exist with the expected parameter count; optional ones with a different count give warnings.
pub fn validate_functions(fns: &Vec<ScriptFunctionInfo>, contract: &ScriptContract, script_name: &str) -> (r: ValidationResult)
    ensures
        r.script@ == script_name@,
        r.missing_required@ == missing_of(fns@, contract.required@),
        r.wrong_params@ == wrong_of(fns@, contract.required@),
        r.warnings@.map_values(|w: String| w@) == warnings_of(fns@, contract.optional@),
{
    let mut result = ValidationResult::new(script_name);
    let mut i: usize = 0;
    while i < contract.required.len()
        invariant
            i <= contract.required@.len(),
            result.script@ == script_name@,
            result.warnings@.len() == 0,
            result.missing_required@ == missing_of(fns@, contract.required@.subrange(0, i as int)),
            result.wrong_params@ == wrong_of(fns@, contract.required@.subrange(0, i as int)),
        decreases contract.required@.len() - i,
    {
        let spec = &contract.required[i];
        assert(contract.required@.subrange(0, i + 1).drop_last() =~= contract.required@.subrange(0, i as int));
        match find_function(fns, spec.name.as_str()) {
            None => {
                result.missing_required.push(spec.clone());
            },
            Some(k) => {
                if let Some(expected) = spec.param_count {
                    if fns[k].param_count != expected {
                        result.wrong_params.push((spec.clone(), fns[k].param_count));
                    }
                }
            },
        }
        i = i + 1;
    }
    assert(contract.required@.subrange(0, i as int) =~= contract.required@);
    let mut j: usize = 0;
    while j < contract.optional.len()
        invariant
            j <= contract.optional@.len(),
            result.script@ == script_name@,
            result.missing_required@ == missing_of(fns@, contract.required@),
            result.wrong_params@ == wrong_of(fns@, contract.required@),
            result.warnings@.map_values(|w: String| w@) == warnings_of(fns@, contract.optional@.subrange(0, j as int)),
        decreases contract.optional@.len() - j,
    {
        let spec = &contract.optional[j];
        assert(contract.optional@.subrange(0, j + 1).drop_last() =~= contract.optional@.subrange(0, j as int));
        let ghost before = result.warnings@;
        if let Some(k) = find_function(fns, spec.name.as_str()) {
            if let Some(expected) = spec.param_count {
                if fns[k].param_count != expected {
                    let w = optional_warning_text(spec, fns[k].param_count);
                    result.warnings.push(w);
                    assert(result.warnings@.map_values(|w: String| w@) =~= before.map_values(|w: String| w@).push(w@));
                }
            }
        }
        j = j + 1;
    }
    assert(contract.optional@.subrange(0, j as int) =~= contract.optional@);
    result
}

fn optional_warning_text(s: &FunctionSpec, found: usize) -> (r: String)
    ensures
        r@ == optional_warning(*s, found),
{
    let expected: usize = match s.param_count {
        Some(n) => n,
        None => 0,
    };
    let found_text = u64_to_decimal(found as u64);
    let expected_text = u64_to_decimal(expected as u64);
    let mut w = owned("Optional function '");
    append_str(&mut w, s.name.as_str());
    append_str(&mut w, "' has ");
    append_str(&mut w, found_text.as_str());
    append_str(&mut w, " parameters, expected ");
    append_str(&mut w, expected_text.as_str());
    append_str(&mut w, " (");
    append_str(&mut w, s.description.as_str());
    append_str(&mut w, ")");
    assert(w@ =~= optional_warning(*s, found));
    w
}

#[verifier::external_type_specification]
#[verifier::external_body]
pub struct ExAst(rhai::AST);

#[verifier::external_type_specification]
#[verifier::external_body]
pub struct ExEngine(rhai::Engine);

/// Name for the script functions `AST::iter_functions` lists for a compiled script, each
/// with its name and parameter count, in the order the iterator gives them.
pub uninterp spec fn ast_function_list(ast: rhai::AST) -> Seq<ScriptFunctionInfo>;

/// Calls `AST::iter_functions` and keeps each script function's name and parameter count.
/// The list is named `ast_function_list` of the compiled script.
#[verifier::external_body]
fn ast_functions(ast: &rhai::AST) -> (r: Vec<ScriptFunctionInfo>)
    ensures
        r@ == ast_function_list(*ast),
{
    ast.iter_functions().map(|f| ScriptFunctionInfo { name: f.name.to_string(), param_count: f.params.len() }).collect()
}

/// Validate a compiled script against a contract: the script's functions (as
/// `ast_function_list` names them) are checked by `validate_functions`.
pub fn validate_script(_engine: &rhai::Engine, ast: &rhai::AST, contract: &ScriptContract, script_name: &str) -> (r: ValidationResult)
    ensures
        r.script@ == script_name@,
        r.missing_required@ == missing_of(ast_function_list(*ast), contract.required@),
        r.wrong_params@ == wrong_of(ast_function_list(*ast), contract.required@),
        r.warnings@.map_values(|w: String| w@) == warnings_of(ast_function_list(*ast), contract.optional@),
{
    let fns = ast_functions(ast);
    validate_functions(&fns, contract, script_name)
}

/// The contract a script path implies: by its directory (missions, behaviors or AI, combat).
pub open spec fn inferred_contract(path: Seq<char>) -> (Seq<(Seq<char>, Option<usize>, Seq<char>)>, Seq<(Seq<char>, Option<usize>, Seq<char>)>) {
    if seq_contains(path, "missions/"@) {
        contracts::mission_view()
    } else if seq_contains(path, "behaviors/"@) || seq_contains(path, "ai/"@) {
        contracts::behavior_view()
    } else if seq_contains(path, "combat/"@) {
        contracts::combat_ai_view()
    } else {
        contracts::minimal_view()
    }
}

/// Infer the contract type from a script path.
pub fn infer_contract(script_path: &str) -> (r: ScriptContract)
    ensures
        contract_view(r) == inferred_contract(script_path@),
{
    if str_contains(script_path, "missions/") {
        contracts::mission()
    } else if str_contains(script_path, "behaviors/") || str_contains(script_path, "ai/") {
        contracts::behavior()
    } else if str_contains(script_path, "combat/") {
        contracts::combat_ai()
    } else {
        contracts::minimal()
    }
}

} // verus!
