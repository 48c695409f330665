//! The global variables that expressions may read, and the checking of the names
//! and expressions that users type into the nodes.
use vstd::prelude::*;
use crate::compute_graph::{ProcessingError, ProcessingErrorView};
use crate::parser::{AstNode, AstError, Expr, parse_expression};
use crate::parser::grammar::{ErrorKind, Failure, parse_spec, failure_message};

verus! {

/// The names of the global variables, and the shader headers that declare them
/// after the mathematical constants.
#[derive(Debug)]
pub struct Globals {
    names: Vec<String>,
    pub shader_header: String,
    wgsl_header: String,
}

/// The mathematical constants that every expression may use.
pub open spec fn is_constant_name(id: Seq<char>) -> bool {
    id == "pi"@ || id == "zero"@
}

/// The names of the mathematical constants, in the order in which the global buffer
/// holds them.
pub open spec fn constant_names() -> Seq<Seq<char>> {
    seq!["pi"@, "zero"@]
}

/// The declarations of `names` in a shader header, each as `pre`, the name and `post`.
pub open spec fn declarations(names: Seq<Seq<char>>, pre: Seq<char>, post: Seq<char>) -> Seq<char>
    decreases names.len(),
{
    if names.len() == 0 {
        seq![]
    } else {
        declarations(names.drop_last(), pre, post) + pre + names.last() + post
    }
}

/// The WGSL header: a uniform struct with one `f32` field per constant and per
/// variable, bound at group 0, binding 0.
pub open spec fn wgsl_header_spec(names: Seq<Seq<char>>) -> Seq<char> {
    "[[block]] struct Globals {\n"@ + declarations(constant_names() + names, "\t"@, ": f32;\n"@)
        + "};\n"@ + "[[group(0), binding(0)]] var<uniform> globals: Globals;\n"@
}

/// The GLSL header: a uniform block with one `float` per constant and per variable.
pub open spec fn shader_header_spec(names: Seq<Seq<char>>) -> Seq<char> {
    "layout(set = 1, binding = 0) uniform Uniforms {\n"@ + declarations(
        constant_names() + names,
        "\tfloat "@,
        ";\n"@,
    ) + "};\n"@
}

/// Whether `id` names a global variable, a constant or one of the node's parameters.
pub open spec fn is_known(names: Seq<Seq<char>>, locals: Seq<Seq<char>>, id: Seq<char>) -> bool {
    names.contains(id) || is_constant_name(id) || locals.contains(id)
}

/// The first identifier of `ids` that is not known.
pub open spec fn first_unknown(names: Seq<Seq<char>>, locals: Seq<Seq<char>>, ids: Seq<Seq<char>>) -> Option<
    Seq<char>,
>
    decreases ids.len(),
{
    if ids.len() == 0 {
        None
    } else if !is_known(names, locals, ids[0]) {
        Some(ids[0])
    } else {
        first_unknown(names, locals, ids.drop_first())
    }
}

/// A node's own parameters are names its expressions may use: each of them, and each
/// global variable and constant, is known.
pub proof fn lemma_locals_known(names: Seq<Seq<char>>, locals: Seq<Seq<char>>, id: Seq<char>)
    ensures
        locals.contains(id) ==> is_known(names, locals, id),
        names.contains(id) ==> is_known(names, locals, id),
        is_constant_name(id) ==> is_known(names, locals, id),
        !locals.contains(id) && !names.contains(id) && !is_constant_name(id) ==> !is_known(names, locals, id),
{
}

/// No identifier is reported unknown exactly when every one is a global variable, a
/// constant or one of the node's parameters; otherwise the one reported is the first
/// that is none of them.
pub proof fn lemma_first_unknown(names: Seq<Seq<char>>, locals: Seq<Seq<char>>, ids: Seq<Seq<char>>)
    ensures
        (forall|j: int|
            0 <= j < ids.len() ==> names.contains(#[trigger] ids[j]) || is_constant_name(ids[j]) || locals.contains(
                ids[j],
            )) <==> first_unknown(names, locals, ids) is None,
        first_unknown(names, locals, ids) matches Some(id) ==> exists|j: int|
            0 <= j < ids.len() && ids[j] == id && !names.contains(id) && !is_constant_name(id) && !locals.contains(
                id,
            ) && forall|i: int|
                0 <= i < j ==> names.contains(#[trigger] ids[i]) || is_constant_name(ids[i]) || locals.contains(
                    ids[i],
                ),
    decreases ids.len(),
{
    if ids.len() > 0 {
        lemma_first_unknown(names, locals, ids.drop_first());
        if (forall|j: int|
            0 <= j < ids.len() ==> names.contains(#[trigger] ids[j]) || is_constant_name(ids[j]) || locals.contains(
                ids[j],
            )) {
            assert forall|j: int| 0 <= j < ids.drop_first().len() implies names.contains(
                #[trigger] ids.drop_first()[j],
            ) || is_constant_name(ids.drop_first()[j]) || locals.contains(ids.drop_first()[j]) by {
                assert(ids.drop_first()[j] == ids[j + 1]);
            }
        }
        if first_unknown(names, locals, ids) is None {
            assert forall|j: int| 0 <= j < ids.len() implies names.contains(#[trigger] ids[j]) || is_constant_name(
                ids[j],
            ) || locals.contains(ids[j]) by {
                if j > 0 {
                    assert(ids[j] == ids.drop_first()[j - 1]);
                }
            }
        }
        if let Some(id) = first_unknown(names, locals, ids) {
            if is_known(names, locals, ids[0]) {
                let j = choose|j: int|
                    0 <= j < ids.drop_first().len() && ids.drop_first()[j] == id && !names.contains(id)
                        && !is_constant_name(id) && !locals.contains(id) && forall|i: int|
                        0 <= i < j ==> names.contains(#[trigger] ids.drop_first()[i]) || is_constant_name(
                            ids.drop_first()[i],
                        ) || locals.contains(ids.drop_first()[i]);
                assert(ids[j + 1] == id);
                assert forall|i: int| 0 <= i < j + 1 implies names.contains(#[trigger] ids[i]) || is_constant_name(
                    ids[i],
                ) || locals.contains(ids[i]) by {
                    if i > 0 {
                        assert(ids[i] == ids.drop_first()[i - 1]);
                    }
                }
            } else {
                assert(ids[0] == id);
            }
        }
    }
}

/// Checking an expression that parses accepts it, rendered, exactly when each of its
/// identifiers is a global variable, a constant or one of the node's parameters.
pub proof fn lemma_sanitize_accepts_known(names: Seq<Seq<char>>, locals: Seq<Seq<char>>, expr: Seq<char>)
    ensures
        parse_spec(expr) matches Ok(e) ==> (sanitize_spec(names, locals, expr) is Ok <==> forall|j: int|
            0 <= j < e.idents().len() ==> names.contains(#[trigger] e.idents()[j]) || is_constant_name(e.idents()[j])
                || locals.contains(e.idents()[j])),
        match parse_spec(expr) {
            Ok(e) => sanitize_spec(names, locals, expr) is Ok ==> sanitize_spec(names, locals, expr) == Ok::<
                Seq<char>,
                ProcessingErrorView,
            >(e.render()),
            Err(_) => sanitize_spec(names, locals, expr) is Err,
        },
{
    reveal(sanitize_spec);
    if let Ok(e) = parse_spec(expr) {
        lemma_first_unknown(names, locals, e.idents());
    }
}

/// The processing error for a parse failure with message `m`: the parser's internal
/// errors stay internal, the others are errors in the expression.
pub open spec fn block_error(kind: ErrorKind, m: Seq<char>) -> ProcessingErrorView {
    if kind is InternalError || kind is UnreachableMatch {
        ProcessingErrorView::InternalError(m)
    } else {
        ProcessingErrorView::IncorrectExpression(m)
    }
}

/// What checking an expression gives: the parse failure, or the first unknown
/// identifier, or the expression rendered in the shading language.
#[verifier::opaque]
pub open spec fn sanitize_spec(names: Seq<Seq<char>>, locals: Seq<Seq<char>>, expr: Seq<char>) -> Result<
    Seq<char>,
    ProcessingErrorView,
> {
    match parse_spec(expr) {
        Ok(e) => match first_unknown(names, locals, e.idents()) {
            Some(id) => Err(
                ProcessingErrorView::IncorrectExpression(
                    "Unknown variable or parameter used: '"@ + id + "'"@,
                ),
            ),
            None => Ok(e.render()),
        },
        Err(f) => Err(block_error(f.kind, failure_message(expr, f))),
    }
}

/// What checking a variable name gives: the name, if it parses as a lone identifier
/// that is not a constant.
#[verifier::opaque]
pub open spec fn sanitize_name_spec(name: Seq<char>) -> Result<Seq<char>, ProcessingErrorView> {
    match parse_spec(name) {
        Ok(Expr::Ident(id)) => if is_constant_name(id) {
            Err(
                ProcessingErrorView::IncorrectExpression(
                    "cannot use a mathematical constant as a variable name"@,
                ),
            )
        } else {
            Ok(id)
        },
        Ok(_) => Err(ProcessingErrorView::IncorrectExpression("cannot use an expression as variable name"@)),
        Err(_) => Err(ProcessingErrorView::IncorrectExpression("invalid variable name"@)),
    }
}

/// The value of a result that holds a string.
pub open spec fn string_result_view(r: Result<String, ProcessingError>) -> Result<Seq<char>, ProcessingErrorView> {
    match r {
        Ok(s) => Ok(s@),
        Err(e) => Err(e@),
    }
}

/// The characters of the names.
pub open spec fn names_view(v: Seq<String>) -> Seq<Seq<char>> {
    v.map_values(|s: String| s@)
}

/// The characters of the names.
pub open spec fn strs_view(v: Seq<&str>) -> Seq<Seq<char>> {
    v.map_values(|s: &str| s@)
}

/// Whether `id` is one of the mathematical constants.
pub fn is_global_constant(id: &String) -> (r: bool)
    ensures
        r == is_constant_name(id@),
{
    id.eq(&String::from_str("pi")) || id.eq(&String::from_str("zero"))
}

fn append_declarations(out: &mut String, names: &Vec<String>, pre: &str, post: &str)
    ensures
        final(out)@ == old(out)@ + declarations(constant_names() + names_view(names@), pre@, post@),
{
    let all: Vec<String> = {
        let mut all = Vec::new();
        all.push(String::from_str("pi"));
        all.push(String::from_str("zero"));
        let mut k: usize = 0;
        while k < names.len()
            invariant
                k <= names@.len(),
                names_view(all@) == constant_names() + names_view(names@).take(k as int),
            decreases names@.len() - k,
        {
            let ghost before = all@;
            all.push(names[k].clone());
            assert(names_view(all@) =~= names_view(before) + seq![names@[k as int]@]);
            assert(names_view(names@).take(k + 1) =~= names_view(names@).take(k as int) + seq![names@[k as int]@]);
            k = k + 1;
        }
        assert(names_view(names@).take(k as int) =~= names_view(names@));
        all
    };
    let ghost start = out@;
    let mut i: usize = 0;
    while i < all.len()
        invariant
            i <= all@.len(),
            out@ == start + declarations(names_view(all@).take(i as int), pre@, post@),
        decreases all@.len() - i,
    {
        out.append(pre);
        out.append(all[i].as_str());
        out.append(post);
        proof {
            let t = names_view(all@).take(i + 1);
            assert(t.drop_last() =~= names_view(all@).take(i as int));
            assert(t.last() == all@[i as int]@);
        }
        i = i + 1;
    }
    assert(names_view(all@).take(i as int) =~= names_view(all@));
}

impl Globals {
    /// The globals named `names`, with their shader headers.
    pub fn new(variables_names: &Vec<String>) -> (g: Globals)
        ensures
            g.names() == names_view(variables_names@),
            g.wgsl() == wgsl_header_spec(names_view(variables_names@)),
            g.glsl() == shader_header_spec(names_view(variables_names@)),
    {
        let mut shader_header = String::from_str("layout(set = 1, binding = 0) uniform Uniforms {\n");
        append_declarations(&mut shader_header, variables_names, "\tfloat ", ";\n");
        shader_header.append("};\n");
        let mut wgsl_header = String::from_str("[[block]] struct Globals {\n");
        append_declarations(&mut wgsl_header, variables_names, "\t", ": f32;\n");
        wgsl_header.append("};\n");
        wgsl_header.append("[[group(0), binding(0)]] var<uniform> globals: Globals;\n");
        let mut names: Vec<String> = Vec::new();
        let mut k: usize = 0;
        while k < variables_names.len()
            invariant
                k <= variables_names@.len(),
                names_view(names@) == names_view(variables_names@).take(k as int),
            decreases variables_names@.len() - k,
        {
            let ghost before = names@;
            names.push(variables_names[k].clone());
            assert(names_view(names@) =~= names_view(before) + seq![variables_names@[k as int]@]);
            assert(names_view(variables_names@).take(k + 1) =~= names_view(variables_names@).take(k as int)
                + seq![variables_names@[k as int]@]);
            k = k + 1;
        }
        assert(names_view(variables_names@).take(k as int) =~= names_view(variables_names@));
        Globals { names, shader_header, wgsl_header }
    }

    /// The names of the global variables.
    pub closed spec fn names(&self) -> Seq<Seq<char>> {
        names_view(self.names@)
    }

    /// The WGSL header that declares the globals.
    pub closed spec fn wgsl(&self) -> Seq<char> {
        self.wgsl_header@
    }

    /// The GLSL header that declares the globals.
    pub closed spec fn glsl(&self) -> Seq<char> {
        self.shader_header@
    }

    /// The WGSL header that declares the globals.
    pub fn get_wgsl_header(&self) -> (r: &str)
        ensures
            r@ == self.wgsl(),
    {
        self.wgsl_header.as_str()
    }

    /// A copy of the names of the global variables.
    pub fn clone_names(&self) -> (r: Vec<String>)
        ensures
            names_view(r@) == self.names(),
    {
        let mut r: Vec<String> = Vec::new();
        let mut k: usize = 0;
        while k < self.names.len()
            invariant
                k <= self.names@.len(),
                names_view(r@) == names_view(self.names@).take(k as int),
            decreases self.names@.len() - k,
        {
            let ghost before = r@;
            r.push(self.names[k].clone());
            assert(names_view(r@) =~= names_view(before) + seq![self.names@[k as int]@]);
            assert(names_view(self.names@).take(k + 1) =~= names_view(self.names@).take(k as int) + seq![self.names@[k as int]@]);
            k = k + 1;
        }
        assert(names_view(self.names@).take(k as int) =~= names_view(self.names@));
        r
    }

    /// Checks a variable name: it must parse as a lone identifier that is not a
    /// mathematical constant.
    pub fn sanitize_variable_name(name: &str) -> (r: Result<String, ProcessingError>)
        ensures
            string_result_view(r) == sanitize_name_spec(name@),
    {
        proof {
            reveal(sanitize_name_spec);
        }
        match parse_expression(name) {
            Ok(ast_tree) => match ast_tree {
                AstNode::Ident(ident) => {
                    if is_global_constant(&ident) {
                        Err(
                            ProcessingError::IncorrectExpression(
                                String::from_str("cannot use a mathematical constant as a variable name"),
                            ),
                        )
                    } else {
                        Ok(ident)
                    }
                },
                _ => Err(
                    ProcessingError::IncorrectExpression(
                        String::from_str("cannot use an expression as variable name"),
                    ),
                ),
            },
            Err(_err) => Err(ProcessingError::IncorrectExpression(String::from_str("invalid variable name"))),
        }
    }

    fn is_known_exec(&self, local_params: &[&str], id: &String) -> (r: bool)
        ensures
            r == is_known(self.names(), strs_view(local_params@), id@),
    {
        let mut k: usize = 0;
        while k < self.names.len()
            invariant
                k <= self.names@.len(),
                forall|j: int| 0 <= j < k ==> self.names@[j]@ != id@,
            decreases self.names@.len() - k,
        {
            if self.names[k].eq(id) {
                assert(names_view(self.names@)[k as int] == id@);
                return true;
            }
            k = k + 1;
        }
        assert(!names_view(self.names@).contains(id@)) by {
            if names_view(self.names@).contains(id@) {
                let j = choose|j: int| 0 <= j < names_view(self.names@).len() && names_view(self.names@)[j] == id@;
                assert(self.names@[j]@ == id@);
            }
        }
        if is_global_constant(id) {
            return true;
        }
        let mut l: usize = 0;
        while l < local_params.len()
            invariant
                l <= local_params@.len(),
                forall|j: int| 0 <= j < l ==> local_params@[j]@ != id@,
            decreases local_params@.len() - l,
        {
            if id.eq(&String::from_str(local_params[l])) {
                assert(strs_view(local_params@)[l as int] == id@);
                return true;
            }
            l = l + 1;
        }
        assert(!strs_view(local_params@).contains(id@)) by {
            if strs_view(local_params@).contains(id@) {
                let j = choose|j: int| 0 <= j < strs_view(local_params@).len() && strs_view(local_params@)[j] == id@;
                assert(local_params@[j]@ == id@);
            }
        }
        false
    }

    /// Checks an expression: it must parse, and every identifier in it must be a
    /// global variable, a constant or one of `local_params`. The result is the
    /// expression in the shading language.
    pub fn sanitize_expression(&self, local_params: &[&str], expression: &str) -> (r: Result<String, ProcessingError>)
        ensures
            string_result_view(r) == sanitize_spec(self.names(), strs_view(local_params@), expression@),
    {
        proof {
            reveal(sanitize_spec);
        }
        match parse_expression(expression) {
            Ok(ast_tree) => {
                let all_idents = ast_tree.find_all_idents();
                let ghost ids = names_view(all_idents@);
                assert(ids.skip(0) =~= ids);
                let mut k: usize = 0;
                while k < all_idents.len()
                    invariant
                        k <= all_idents@.len(),
                        ids == names_view(all_idents@),
                        parse_spec(expression@) == Ok::<Expr, Failure>(ast_tree@),
                        ast_tree@.idents() == ids,
                        first_unknown(self.names(), strs_view(local_params@), ids)
                            == first_unknown(self.names(), strs_view(local_params@), ids.skip(k as int)),
                    decreases all_idents@.len() - k,
                {
                    assert(ids.skip(k as int).drop_first() =~= ids.skip(k + 1));
                    if !self.is_known_exec(local_params, &all_idents[k]) {
                        assert(ids.skip(k as int)[0] == all_idents@[k as int]@);
                        proof {
                            reveal(sanitize_spec);
                        }
                        let mut msg = String::from_str("Unknown variable or parameter used: '");
                        msg.append(all_idents[k].as_str());
                        msg.append("'");
                        return Err(ProcessingError::IncorrectExpression(msg));
                    }
                    k = k + 1;
                }
                assert(ids.skip(k as int) =~= seq![]);
                Ok(ast_tree.to_string())
            },
            Err(ast_error) => Err(Self::ast_to_block_error(ast_error)),
        }
    }

    /// The processing error for a parse error: the parser's internal errors stay
    /// internal, the others are errors in the expression. The message is kept.
    pub fn ast_to_block_error(error: AstError) -> (r: ProcessingError)
        ensures
            r@ == block_error(error.kind(), error.message()),
    {
        match error {
            AstError::UnreachableMatch(e) => ProcessingError::InternalError(e),
            AstError::InternalError(e) => ProcessingError::InternalError(e),
            AstError::InvalidCharacter(e) => ProcessingError::IncorrectExpression(e),
            AstError::PowAmbiguity(e) => ProcessingError::IncorrectExpression(e),
            AstError::ImplicitProduct(e) => ProcessingError::IncorrectExpression(e),
            AstError::MultipleSigns(e) => ProcessingError::IncorrectExpression(e),
            AstError::MultipleOps(e) => ProcessingError::IncorrectExpression(e),
            AstError::MultipleExpressions(e) => ProcessingError::IncorrectExpression(e),
            AstError::FailedParse(e) => ProcessingError::IncorrectExpression(e),
            AstError::MissingParenthesis(e) => ProcessingError::IncorrectExpression(e),
        }
    }
}

} // verus!
