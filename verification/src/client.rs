//! The `client!` expansion: parsing a client declaration and rendering the
//! concrete client struct, its `Dependency` implementation and the helper
//! modules that `deps!` and `test_deps!` use.
use crate::text::{contains_text, decimal, decimal_string, join, lemma_contains_middle, lemma_join_push};
use crate::tokens::{
    first_ident, first_punct, ident_at, ident_at_result, is_ident, is_ident_named, is_punct,
    is_punct_char, joined_text, last_ident_before, last_ident_text, lists_view, position_of_ident,
    position_of_punct, split_pieces, split_top_level, text_result, tokens_to_string, Delimiter,
    TokenTree,
};
use vstd::prelude::*;

verus! {

/// One method argument.
pub struct Argument {
    /// The argument binding name.
    pub name: String,
    /// The argument type as source text.
    pub ty: String,
}

/// One declared client method.
pub struct Method {
    /// The identifier used for both the field and the wrapper method.
    pub name: String,
    /// The leading tokens to replay, such as `pub` or attributes.
    pub visibility: String,
    /// The arguments in declaration order.
    pub arguments: Vec<Argument>,
    /// The declared return type as source text.
    pub return_ty: String,
    /// The live implementation expression, if one was given.
    pub implementation: Option<String>,
    /// Whether the method was declared `async`.
    pub is_async: bool,
}

/// A method as plain text values.
pub struct MethodModel {
    pub name: Seq<char>,
    pub visibility: Seq<char>,
    /// Each argument as its name and its type.
    pub arguments: Seq<(Seq<char>, Seq<char>)>,
    pub return_ty: Seq<char>,
    pub implementation: Option<Seq<char>>,
    pub is_async: bool,
}

impl View for Argument {
    type V = (Seq<char>, Seq<char>);

    open spec fn view(&self) -> (Seq<char>, Seq<char>) {
        (self.name@, self.ty@)
    }
}

/// The optional text by its view.
pub open spec fn opt_text(text: Option<String>) -> Option<Seq<char>> {
    match text {
        Some(t) => Some(t@),
        None => None,
    }
}

impl View for Method {
    type V = MethodModel;

    open spec fn view(&self) -> MethodModel {
        MethodModel {
            name: self.name@,
            visibility: self.visibility@,
            arguments: self.arguments@.map_values(|a: Argument| a@),
            return_ty: self.return_ty@,
            implementation: opt_text(self.implementation),
            is_async: self.is_async,
        }
    }
}

/// `value` followed by a space, or nothing when `value` is empty.
pub open spec fn trailing_space(value: Seq<char>) -> Seq<char> {
    if value.len() == 0 {
        Seq::empty()
    } else {
        value + seq![' ']
    }
}

/// `", "` when `value` is non-empty, `""` otherwise.
pub open spec fn comma_before(value: Seq<char>) -> Seq<char> {
    if value.len() == 0 {
        ""@
    } else {
        ", "@
    }
}

/// `name: Type` for one argument.
pub open spec fn arg_decl(argument: (Seq<char>, Seq<char>)) -> Seq<char> {
    argument.0 + ": "@ + argument.1
}

/// The arguments in declaration form, `id: u64, name: String`.
pub open spec fn args_decl_text(arguments: Seq<(Seq<char>, Seq<char>)>) -> Seq<char> {
    join(arguments.map_values(|a: (Seq<char>, Seq<char>)| arg_decl(a)), ", "@)
}

/// The argument types, comma separated.
pub open spec fn args_types_text(arguments: Seq<(Seq<char>, Seq<char>)>) -> Seq<char> {
    join(arguments.map_values(|a: (Seq<char>, Seq<char>)| a.1), ", "@)
}

/// The argument names, comma separated.
pub open spec fn args_names_text(arguments: Seq<(Seq<char>, Seq<char>)>) -> Seq<char> {
    join(arguments.map_values(|a: (Seq<char>, Seq<char>)| a.0), ", "@)
}

/// The runtime eraser helper for the method's shape.
pub open spec fn eraser_name_text(m: MethodModel) -> Seq<char> {
    if m.is_async {
        "::dep::erase_async_"@ + decimal(m.arguments.len())
    } else {
        "::dep::erase_sync_"@ + decimal(m.arguments.len())
    }
}

/// The return type of the stored function pointer.
pub open spec fn fn_pointer_return_text(m: MethodModel) -> Seq<char> {
    if m.is_async {
        "::dep::BoxFuture<"@ + m.return_ty + ">"@
    } else {
        m.return_ty
    }
}

/// The struct field that stores the method's function pointer.
pub open spec fn field_text(m: MethodModel) -> Seq<char> {
    m.name + ": fn("@ + args_types_text(m.arguments) + ") -> "@ + fn_pointer_return_text(m) + ","@
}

/// The wrapper method that forwards to the stored function pointer.
pub open spec fn method_text(m: MethodModel) -> Seq<char> {
    let args = args_decl_text(m.arguments);
    if m.is_async {
        trailing_space(m.visibility) + "async fn "@ + m.name + "(&self"@ + comma_before(args) + args
            + ") -> "@ + m.return_ty + " {\n                (self."@ + m.name + ")("@
            + args_names_text(m.arguments) + ").await\n            }"@
    } else {
        trailing_space(m.visibility) + "fn "@ + m.name + "(&self"@ + comma_before(args) + args
            + ") -> "@ + m.return_ty + " {\n                (self."@ + m.name + ")("@
            + args_names_text(m.arguments) + ")\n            }"@
    }
}

/// The live initializer of the method's function-pointer field.
pub open spec fn live_initializer_text(m: MethodModel, client_name: Seq<char>) -> Seq<char> {
    match m.implementation {
        Some(implementation) => eraser_name_text(m) + "("@ + implementation + ")"@,
        None => if m.is_async {
            "{\n                        fn __dep_unimplemented("@ + args_decl_text(m.arguments)
                + ") -> ::dep::BoxFuture<"@ + m.return_ty
                + "> {\n                            ::dep::boxed(async move {\n                                ::dep::unimplemented_dependency(\""@
                + client_name + "."@ + m.name
                + "\")\n                            })\n                        }\n\n                        __dep_unimplemented\n                    }"@
        } else {
            "{\n                        fn __dep_unimplemented("@ + args_decl_text(m.arguments)
                + ") -> "@ + m.return_ty
                + " {\n                            ::dep::unimplemented_dependency(\""@ + client_name
                + "."@ + m.name
                + "\")\n                        }\n\n                        __dep_unimplemented\n                    }"@
        },
    }
}

/// The per-method helper module used by `deps!` and `test_deps!`.
pub open spec fn module_text(m: MethodModel, client_name: Seq<char>) -> Seq<char> {
    let types = args_types_text(m.arguments);
    if m.is_async {
        "pub mod "@ + m.name + " {\n                    use super::*;\n\n                    pub fn get() -> fn("@
            + types + ") -> "@ + fn_pointer_return_text(m)
            + " {\n                        super::get()."@ + m.name
            + "\n                    }\n\n                    pub fn override_with<F, Fut>(builder: &mut ::dep::OverrideBuilder, implementation: F)\n                    where\n                        F: Fn("@
            + types
            + ") -> Fut + Copy + 'static,\n                        Fut: ::core::future::Future<Output = "@
            + m.return_ty
            + "> + Send + 'static,\n                    {\n                        builder.update::<super::super::"@
            + client_name
            + ", _>(|mut dependency| {\n                            dependency."@ + m.name
            + " = "@ + eraser_name_text(m)
            + "(implementation);\n                            dependency\n                        });\n                    }\n                }"@
    } else {
        "pub mod "@ + m.name + " {\n                    use super::*;\n\n                    pub fn get() -> fn("@
            + types + ") -> "@ + fn_pointer_return_text(m)
            + " {\n                        super::get()."@ + m.name
            + "\n                    }\n\n                    pub fn override_with<F>(builder: &mut ::dep::OverrideBuilder, implementation: F)\n                    where\n                        F: Fn("@
            + types + ") -> "@ + m.return_ty
            + " + Copy + 'static,\n                    {\n                        builder.update::<super::super::"@
            + client_name
            + ", _>(|mut dependency| {\n                            dependency."@ + m.name
            + " = "@ + eraser_name_text(m)
            + "(implementation);\n                            dependency\n                        });\n                    }\n                }"@
    }
}

/// Returns `value` plus a trailing space when it is non-empty.
pub fn with_trailing_space(value: &str) -> (text: String)
    ensures
        text@ == trailing_space(value@),
{
    if value.is_empty() {
        String::new()
    } else {
        let mut text = String::from_str(value);
        text.append(" ");
        proof {
            reveal_strlit(" ");
        }
        assert(text@ =~= value@ + seq![' ']);
        text
    }
}

/// Returns `", "` when `value` is non-empty so rendered methods can place
/// commas between `&self` and declared parameters.
pub fn maybe_comma(value: &str) -> (comma: &'static str)
    ensures
        comma@ == comma_before(value@),
{
    if value.is_empty() {
        ""
    } else {
        ", "
    }
}

impl Method {
    /// The number of arguments declared by the method.
    pub fn arity(&self) -> (n: usize)
        ensures
            n == self@.arguments.len(),
    {
        self.arguments.len()
    }

    /// Chooses the runtime eraser helper for the method shape.
    pub fn eraser_name(&self) -> (text: String)
        ensures
            text@ == eraser_name_text(self@),
    {
        let mut text = if self.is_async {
            String::from_str("::dep::erase_async_")
        } else {
            String::from_str("::dep::erase_sync_")
        };
        let n = decimal_string(self.arity());
        text.append(n.as_str());
        text
    }

    /// Renders the argument list in declaration form.
    pub fn args_decl(&self) -> (text: String)
        ensures
            text@ == args_decl_text(self@.arguments),
    {
        let ghost args = self@.arguments;
        let mut text = String::new();
        let mut i: usize = 0;
        while i < self.arguments.len()
            invariant
                i <= self.arguments@.len(),
                args == self@.arguments,
                args.len() == self.arguments@.len(),
                text@ == args_decl_text(args.take(i as int)),
            decreases self.arguments@.len() - i,
        {
            let argument = &self.arguments[i];
            proof {
                let f = |a: (Seq<char>, Seq<char>)| arg_decl(a);
                assert(args.take(i + 1).map_values(f) =~= args.take(i as int).map_values(f).push(
                    arg_decl(args[i as int]),
                ));
                lemma_join_push(args.take(i as int).map_values(f), ", "@, arg_decl(args[i as int]));
            }
            if i > 0 {
                text.append(", ");
            }
            text.append(argument.name.as_str());
            text.append(": ");
            text.append(argument.ty.as_str());
            i = i + 1;
        }
        assert(args.take(args.len() as int) =~= args);
        text
    }

    /// Renders only the argument types in declaration order.
    pub fn args_types(&self) -> (text: String)
        ensures
            text@ == args_types_text(self@.arguments),
    {
        let ghost args = self@.arguments;
        let mut text = String::new();
        let mut i: usize = 0;
        while i < self.arguments.len()
            invariant
                i <= self.arguments@.len(),
                args == self@.arguments,
                args.len() == self.arguments@.len(),
                text@ == args_types_text(args.take(i as int)),
            decreases self.arguments@.len() - i,
        {
            let argument = &self.arguments[i];
            proof {
                let f = |a: (Seq<char>, Seq<char>)| a.1;
                assert(args.take(i + 1).map_values(f) =~= args.take(i as int).map_values(f).push(
                    args[i as int].1,
                ));
                lemma_join_push(args.take(i as int).map_values(f), ", "@, args[i as int].1);
            }
            if i > 0 {
                text.append(", ");
            }
            text.append(argument.ty.as_str());
            i = i + 1;
        }
        assert(args.take(args.len() as int) =~= args);
        text
    }

    /// Renders only the argument names in declaration order.
    pub fn args_names(&self) -> (text: String)
        ensures
            text@ == args_names_text(self@.arguments),
    {
        let ghost args = self@.arguments;
        let mut text = String::new();
        let mut i: usize = 0;
        while i < self.arguments.len()
            invariant
                i <= self.arguments@.len(),
                args == self@.arguments,
                args.len() == self.arguments@.len(),
                text@ == args_names_text(args.take(i as int)),
            decreases self.arguments@.len() - i,
        {
            let argument = &self.arguments[i];
            proof {
                let f = |a: (Seq<char>, Seq<char>)| a.0;
                assert(args.take(i + 1).map_values(f) =~= args.take(i as int).map_values(f).push(
                    args[i as int].0,
                ));
                lemma_join_push(args.take(i as int).map_values(f), ", "@, args[i as int].0);
            }
            if i > 0 {
                text.append(", ");
            }
            text.append(argument.name.as_str());
            i = i + 1;
        }
        assert(args.take(args.len() as int) =~= args);
        text
    }

    /// Renders the function-pointer return type used by the stored field.
    pub fn fn_pointer_return(&self) -> (text: String)
        ensures
            text@ == fn_pointer_return_text(self@),
    {
        if self.is_async {
            let mut text = String::from_str("::dep::BoxFuture<");
            text.append(self.return_ty.as_str());
            text.append(">");
            text
        } else {
            self.return_ty.clone()
        }
    }

    /// Renders the struct field that stores the function pointer.
    pub fn render_field(&self) -> (text: String)
        ensures
            text@ == field_text(self@),
    {
        let mut text = self.name.clone();
        text.append(": fn(");
        let types = self.args_types();
        text.append(types.as_str());
        text.append(") -> ");
        let ret = self.fn_pointer_return();
        text.append(ret.as_str());
        text.append(",");
        text
    }
    /// Renders the wrapper method that forwards to the stored function
    /// pointer.
    pub fn render_method(&self) -> (text: String)
        ensures
            text@ == method_text(self@),
    {
        let visibility = with_trailing_space(self.visibility.as_str());
        let args_decl = self.args_decl();
        let call_args = self.args_names();
        let mut text = visibility;
        if self.is_async {
            text.append("async fn ");
        } else {
            text.append("fn ");
        }
        text.append(self.name.as_str());
        text.append("(&self");
        text.append(maybe_comma(args_decl.as_str()));
        text.append(args_decl.as_str());
        text.append(") -> ");
        text.append(self.return_ty.as_str());
        text.append(" {\n                (self.");
        text.append(self.name.as_str());
        text.append(")(");
        text.append(call_args.as_str());
        if self.is_async {
            text.append(").await\n            }");
        } else {
            text.append(")\n            }");
        }
        text
    }

    /// Renders the live initializer for the function-pointer field.
    ///
    /// With a live implementation this selects the eraser helper; without one
    /// it renders a placeholder that panics with the dependency's path.
    pub fn render_live_initializer(&self, client_name: &str) -> (text: String)
        ensures
            text@ == live_initializer_text(self@, client_name@),
    {
        match &self.implementation {
            Some(implementation) => {
                let mut text = self.eraser_name();
                text.append("(");
                text.append(implementation.as_str());
                text.append(")");
                text
            },
            None => {
                let mut text = String::from_str("{\n                        fn __dep_unimplemented(");
                let args_decl = self.args_decl();
                text.append(args_decl.as_str());
                if self.is_async {
                    text.append(") -> ::dep::BoxFuture<");
                    text.append(self.return_ty.as_str());
                    text.append("> {\n                            ::dep::boxed(async move {\n                                ::dep::unimplemented_dependency(\"");
                    text.append(client_name);
                    text.append(".");
                    text.append(self.name.as_str());
                    text.append("\")\n                            })\n                        }\n\n                        __dep_unimplemented\n                    }");
                } else {
                    text.append(") -> ");
                    text.append(self.return_ty.as_str());
                    text.append(" {\n                            ::dep::unimplemented_dependency(\"");
                    text.append(client_name);
                    text.append(".");
                    text.append(self.name.as_str());
                    text.append("\")\n                        }\n\n                        __dep_unimplemented\n                    }");
                }
                text
            },
        }
    }

    /// Renders the per-method helper module used by `deps!` and
    /// `test_deps!`.
    pub fn render_module(&self, client_name: &str) -> (text: String)
        ensures
            text@ == module_text(self@, client_name@),
    {
        let args_types = self.args_types();
        let fn_pointer_return = self.fn_pointer_return();
        let eraser = self.eraser_name();
        let mut text = String::from_str("pub mod ");
        text.append(self.name.as_str());
        text.append(" {\n                    use super::*;\n\n                    pub fn get() -> fn(");
        text.append(args_types.as_str());
        text.append(") -> ");
        text.append(fn_pointer_return.as_str());
        text.append(" {\n                        super::get().");
        text.append(self.name.as_str());
        if self.is_async {
            text.append("\n                    }\n\n                    pub fn override_with<F, Fut>(builder: &mut ::dep::OverrideBuilder, implementation: F)\n                    where\n                        F: Fn(");
            text.append(args_types.as_str());
            text.append(") -> Fut + Copy + 'static,\n                        Fut: ::core::future::Future<Output = ");
            text.append(self.return_ty.as_str());
            text.append("> + Send + 'static,\n                    {\n                        builder.update::<super::super::");
        } else {
            text.append("\n                    }\n\n                    pub fn override_with<F>(builder: &mut ::dep::OverrideBuilder, implementation: F)\n                    where\n                        F: Fn(");
            text.append(args_types.as_str());
            text.append(") -> ");
            text.append(self.return_ty.as_str());
            text.append(" + Copy + 'static,\n                    {\n                        builder.update::<super::super::");
        }
        text.append(client_name);
        text.append(", _>(|mut dependency| {\n                            dependency.");
        text.append(self.name.as_str());
        text.append(" = ");
        text.append(eraser.as_str());
        text.append("(implementation);\n                            dependency\n                        });\n                    }\n                }");
        text
    }
}

/// What parsing one argument gives: its name and type, or the complaint.
pub open spec fn argument_result(tokens: Seq<TokenTree>) -> Result<
    (Seq<char>, Seq<char>),
    Seq<char>,
> {
    match first_punct(tokens, ':', 0) {
        None => Err("expected arguments to look like `name: Type`"@),
        Some(colon) => match last_ident_before(tokens, colon) {
            None => Err("expected an argument name"@),
            Some(name) => {
                let ty = joined_text(tokens.skip(colon + 1));
                if ty.len() == 0 {
                    Err("expected an argument type"@)
                } else {
                    Ok((name, ty))
                }
            },
        },
    }
}

/// The arguments of the pieces, in order, or the complaint about the first
/// piece that is not an argument.
pub open spec fn arguments_result(pieces: Seq<Seq<TokenTree>>) -> Result<
    Seq<(Seq<char>, Seq<char>)>,
    Seq<char>,
>
    decreases pieces.len(),
{
    if pieces.len() == 0 {
        Ok(Seq::empty())
    } else {
        match arguments_result(pieces.drop_last()) {
            Err(message) => Err(message),
            Ok(arguments) => match argument_result(pieces.last()) {
                Err(message) => Err(message),
                Ok(argument) => Ok(arguments.push(argument)),
            },
        }
    }
}

/// The arguments by their views, when parsing succeeded.
pub open spec fn arguments_view(result: Result<Vec<Argument>, String>) -> Result<
    Seq<(Seq<char>, Seq<char>)>,
    Seq<char>,
> {
    match result {
        Ok(arguments) => Ok(arguments@.map_values(|a: Argument| a@)),
        Err(message) => Err(message@),
    }
}

/// Parses one `name: Type` argument.
pub fn parse_argument(tokens: &[TokenTree]) -> (result: Result<Argument, String>)
    ensures
        match result {
            Ok(argument) => argument_result(tokens@) == Ok::<_, Seq<char>>(argument@),
            Err(message) => argument_result(tokens@) == Err::<(Seq<char>, Seq<char>), _>(
                message@,
            ),
        },
{
    let colon_index = match position_of_punct(tokens, ':') {
        Some(index) => index,
        None => {
            return Err(String::from_str("expected arguments to look like `name: Type`"));
        },
    };
    let name = match last_ident_text(tokens, colon_index) {
        Some(name) => name,
        None => {
            return Err(String::from_str("expected an argument name"));
        },
    };
    let n = tokens.len();
    let ty = tokens_to_string(&tokens[colon_index + 1..n]);
    assert(tokens@.subrange(colon_index + 1, tokens@.len() as int) =~= tokens@.skip(
        colon_index + 1,
    ));
    if ty.as_str().is_empty() {
        return Err(String::from_str("expected an argument type"));
    }
    Ok(Argument { name, ty })
}

/// Parses a parenthesized argument list into named arguments.
pub fn parse_arguments(stream: Vec<TokenTree>) -> (result: Result<Vec<Argument>, String>)
    ensures
        arguments_view(result) == arguments_result(split_pieces(stream@, ',')),
{
    let ghost all = stream@;
    let pieces = split_top_level(stream, ',');
    let ghost ps = split_pieces(all, ',');
    let mut arguments: Vec<Argument> = Vec::new();
    assert(arguments@.map_values(|a: Argument| a@) =~= Seq::<(Seq<char>, Seq<char>)>::empty());
    assert(ps.take(0) =~= Seq::<Seq<TokenTree>>::empty());
    let mut i: usize = 0;
    while i < pieces.len()
        invariant
            i <= pieces@.len(),
            lists_view(pieces@) == ps,
            ps == split_pieces(stream@, ','),
            arguments_result(ps.take(i as int)) == Ok::<_, Seq<char>>(
                arguments@.map_values(|a: Argument| a@),
            ),
        decreases pieces@.len() - i,
    {
        proof {
            assert(ps.take(i + 1).drop_last() =~= ps.take(i as int));
            assert(ps.take(i + 1).last() == pieces@[i as int]@);
        }
        match parse_argument(pieces[i].as_slice()) {
            Ok(argument) => {
                let ghost before = arguments@;
                arguments.push(argument);
                assert(arguments@.map_values(|a: Argument| a@) =~= before.map_values(
                    |a: Argument| a@,
                ).push(argument@));
            },
            Err(message) => {
                proof {
                    lemma_arguments_error_persists(ps, i + 1, message@);
                }
                return Err(message);
            },
        }
        i = i + 1;
    }
    assert(ps.take(ps.len() as int) =~= ps);
    Ok(arguments)
}

/// Once a prefix of the pieces fails to parse, the whole list fails with the
/// same complaint.
pub proof fn lemma_arguments_error_persists(pieces: Seq<Seq<TokenTree>>, n: int, message: Seq<char>)
    requires
        0 <= n <= pieces.len(),
        arguments_result(pieces.take(n)) == Err::<Seq<(Seq<char>, Seq<char>)>, _>(message),
    ensures
        arguments_result(pieces) == Err::<Seq<(Seq<char>, Seq<char>)>, _>(message),
    decreases pieces.len() - n,
{
    if n < pieces.len() {
        assert(pieces.take(n + 1).drop_last() =~= pieces.take(n));
        lemma_arguments_error_persists(pieces, n + 1, message);
    } else {
        assert(pieces.take(n) =~= pieces);
    }
}

/// The inner tokens of the group at `index` when it is delimited by
/// `delimiter`.
pub open spec fn group_stream(tokens: Seq<TokenTree>, index: int, delimiter: Delimiter) -> Option<
    Seq<TokenTree>,
> {
    if 0 <= index < tokens.len() {
        match tokens[index] {
            TokenTree::Group(d, inner, _) => if d == delimiter {
                Some(inner@)
            } else {
                None
            },
            _ => None,
        }
    } else {
        None
    }
}

/// What parsing one declared client method gives: the method, or the
/// complaint about it.
pub open spec fn method_result(tokens: Seq<TokenTree>) -> Result<MethodModel, Seq<char>> {
    if tokens.len() == 0 {
        Err("empty method definition"@)
    } else {
        match first_ident(tokens, "fn"@, 0) {
            None => Err("client methods must use `fn`"@),
            Some(fn_index) => {
                let is_async = fn_index > 0 && is_ident_named(tokens[fn_index - 1], "async"@);
                let visibility = joined_text(
                    tokens.take(
                        if is_async {
                            fn_index - 1
                        } else {
                            fn_index
                        },
                    ),
                );
                match ident_at_result(tokens, fn_index + 1, "a method name"@) {
                    Err(message) => Err(message),
                    Ok(name) => match group_stream(tokens, fn_index + 2, Delimiter::Parenthesis) {
                        None => Err("method `"@ + name + "` is missing its argument list"@),
                        Some(inner) => {
                            let rest = tokens.skip(fn_index + 3);
                            if !(rest.len() > 0 && is_punct_char(rest[0], '-')) || !(rest.len() > 1
                                && is_punct_char(rest[1], '>')) {
                                Err("method `"@ + name + "` is missing `->`"@)
                            } else {
                                let eq = first_punct(rest, '=', 0);
                                let return_tokens = match eq {
                                    Some(e) => rest.subrange(2, e),
                                    None => rest.skip(2),
                                };
                                if return_tokens.len() == 0 {
                                    Err("method `"@ + name + "` is missing a return type"@)
                                } else {
                                    let implementation = match eq {
                                        Some(e) => Some(joined_text(rest.skip(e + 1))),
                                        None => None,
                                    };
                                    match arguments_result(split_pieces(inner, ',')) {
                                        Err(message) => Err(message),
                                        Ok(arguments) => if arguments.len() > 4 {
                                            Err(
                                                "method `"@ + name + "` has "@ + decimal(
                                                    arguments.len(),
                                                ) + " arguments, but only up to 4 are supported right now"@,
                                            )
                                        } else {
                                            Ok(
                                                MethodModel {
                                                    name,
                                                    visibility,
                                                    arguments,
                                                    return_ty: joined_text(return_tokens),
                                                    implementation,
                                                    is_async,
                                                },
                                            )
                                        },
                                    }
                                }
                            }
                        },
                    },
                }
            },
        }
    }
}

/// The methods by their views.
pub open spec fn methods_view(methods: Seq<Method>) -> Seq<MethodModel> {
    methods.map_values(|m: Method| m@)
}

/// The methods declared by the pieces, in order, or the complaint about the
/// first piece that is not a method.
pub open spec fn methods_result(pieces: Seq<Seq<TokenTree>>) -> Result<Seq<MethodModel>, Seq<char>>
    decreases pieces.len(),
{
    if pieces.len() == 0 {
        Ok(Seq::empty())
    } else {
        match methods_result(pieces.drop_last()) {
            Err(message) => Err(message),
            Ok(methods) => match method_result(pieces.last()) {
                Err(message) => Err(message),
                Ok(method) => Ok(methods.push(method)),
            },
        }
    }
}

/// Once a prefix of the pieces fails to parse, every longer prefix fails
/// with the same complaint.
pub proof fn lemma_methods_error_persists(pieces: Seq<Seq<TokenTree>>, n: int, message: Seq<char>)
    requires
        0 <= n <= pieces.len(),
        methods_result(pieces.take(n)) == Err::<Seq<MethodModel>, _>(message),
    ensures
        methods_result(pieces) == Err::<Seq<MethodModel>, _>(message),
    decreases pieces.len() - n,
{
    if n < pieces.len() {
        assert(pieces.take(n + 1).drop_last() =~= pieces.take(n));
        lemma_methods_error_persists(pieces, n + 1, message);
    } else {
        assert(pieces.take(n) =~= pieces);
    }
}

/// The complaint that a method lacks its argument list.
fn missing_message(name: &String, what: &str) -> (message: String)
    ensures
        message@ == "method `"@ + name@ + what@,
{
    let mut message = String::from_str("method `");
    message.append(name.as_str());
    message.append(what);
    message
}

/// Parses one declared client method.
pub fn parse_method(tokens: Vec<TokenTree>) -> (result: Result<Method, String>)
    ensures
        match result {
            Ok(method) => method_result(tokens@) == Ok::<_, Seq<char>>(method@),
            Err(message) => method_result(tokens@) == Err::<MethodModel, _>(message@),
        },
{
    let ghost orig = tokens@;
    let mut tokens = tokens;
    if tokens.len() == 0 {
        return Err(String::from_str("empty method definition"));
    }
    let fn_index = match position_of_ident(tokens.as_slice(), "fn") {
        Some(index) => index,
        None => {
            return Err(String::from_str("client methods must use `fn`"));
        },
    };
    let is_async = fn_index > 0 && is_ident(&tokens[fn_index - 1], "async");
    let lead_end = if is_async {
        fn_index - 1
    } else {
        fn_index
    };
    let visibility = tokens_to_string(&tokens.as_slice()[0..lead_end]);
    assert(orig.subrange(0, lead_end as int) =~= orig.take(lead_end as int));
    let name = match ident_at(tokens.as_slice(), fn_index + 1, "a method name") {
        Ok(name) => name,
        Err(message) => {
            return Err(message);
        },
    };
    if fn_index + 2 >= tokens.len() {
        return Err(missing_message(&name, "` is missing its argument list"));
    }
    let group = tokens.remove(fn_index + 2);
    let arguments_group = match group {
        TokenTree::Group(Delimiter::Parenthesis, stream, _) => stream,
        _ => {
            return Err(missing_message(&name, "` is missing its argument list"));
        },
    };
    let ghost inner = arguments_group@;
    let n = tokens.len();
    let start = fn_index + 2;
    let ghost rest = orig.skip(fn_index + 3);
    assert(tokens@.subrange(start as int, n as int) =~= rest);
    if !(start < n && is_punct(&tokens[start], '-')) || !(start + 1 < n && is_punct(
        &tokens[start + 1],
        '>',
    )) {
        return Err(missing_message(&name, "` is missing `->`"));
    }
    let rest_tokens = &tokens.as_slice()[start..n];
    let eq_index = position_of_punct(rest_tokens, '=');
    let return_end = match eq_index {
        Some(index) => index,
        None => rest_tokens.len(),
    };
    if return_end <= 2 {
        return Err(missing_message(&name, "` is missing a return type"));
    }
    let return_ty = tokens_to_string(&rest_tokens[2..return_end]);
    let implementation = match eq_index {
        Some(index) => {
            let text = tokens_to_string(&rest_tokens[index + 1..rest_tokens.len()]);
            assert(rest.subrange(index + 1, rest.len() as int) =~= rest.skip(index + 1));
            Some(text)
        },
        None => None,
    };
    assert(rest.subrange(2, return_end as int) =~= match first_punct(rest, '=', 0) {
        Some(e) => rest.subrange(2, e),
        None => rest.skip(2),
    });
    let arguments = match parse_arguments(arguments_group) {
        Ok(arguments) => arguments,
        Err(message) => {
            return Err(message);
        },
    };
    if arguments.len() > 4 {
        let mut message = missing_message(&name, "` has ");
        let count = decimal_string(arguments.len());
        message.append(count.as_str());
        message.append(" arguments, but only up to 4 are supported right now");
        return Err(message);
    }
    let method = Method {
        name,
        visibility,
        arguments,
        return_ty,
        implementation,
        is_async,
    };
    assert(method@.arguments =~= arguments@.map_values(|a: Argument| a@));
    Ok(method)
}

/// The methods by their views, when parsing succeeded.
pub open spec fn parsed_methods_view(result: Result<Vec<Method>, String>) -> Result<
    Seq<MethodModel>,
    Seq<char>,
> {
    match result {
        Ok(methods) => Ok(methods_view(methods@)),
        Err(message) => Err(message@),
    }
}

/// Parses the method list from the body of a `client!` declaration.
pub fn parse_methods(stream: Vec<TokenTree>) -> (result: Result<Vec<Method>, String>)
    ensures
        parsed_methods_view(result) == methods_result(split_pieces(stream@, ';')),
{
    let ghost all = stream@;
    let pieces = split_top_level(stream, ';');
    let ghost ps = split_pieces(all, ';');
    let mut methods: Vec<Method> = Vec::new();
    assert(methods_view(methods@) =~= Seq::<MethodModel>::empty());
    assert(ps.take(0) =~= Seq::<Seq<TokenTree>>::empty());
    let ghost mut seen: int = 0;
    for piece in it: pieces.into_iter()
        invariant
            lists_view(it.seq()) == ps,
            ps == split_pieces(stream@, ';'),
            seen == it.index(),
            seen <= ps.len(),
            methods_result(ps.take(seen)) == Ok::<_, Seq<char>>(methods_view(methods@)),
    {
        assert(seen < ps.len());
        proof {
            assert(ps.take(seen + 1).drop_last() =~= ps.take(seen));
            assert(ps.take(seen + 1).last() == piece@);
        }
        match parse_method(piece) {
            Ok(method) => {
                let ghost before = methods@;
                methods.push(method);
                assert(methods_view(methods@) =~= methods_view(before).push(method@));
            },
            Err(message) => {
                proof {
                    lemma_methods_error_persists(ps, seen + 1, message@);
                }
                return Err(message);
            },
        }
        proof {
            seen = seen + 1;
        }
    }
    assert(ps.take(ps.len() as int) =~= ps);
    Ok(methods)
}

/// The struct fields of all methods, one per line.
pub open spec fn field_lines_text(methods: Seq<MethodModel>) -> Seq<char>
    decreases methods.len(),
{
    if methods.len() == 0 {
        Seq::empty()
    } else if methods.len() == 1 {
        field_text(methods[0])
    } else {
        field_lines_text(methods.drop_last()) + "\n"@ + field_text(methods.last())
    }
}

/// The wrapper methods of all methods, separated by blank lines.
pub open spec fn method_lines_text(methods: Seq<MethodModel>) -> Seq<char>
    decreases methods.len(),
{
    if methods.len() == 0 {
        Seq::empty()
    } else if methods.len() == 1 {
        method_text(methods[0])
    } else {
        method_lines_text(methods.drop_last()) + "\n\n"@ + method_text(methods.last())
    }
}

/// One field of the live client value: the method name and its initializer.
pub open spec fn live_line_text(m: MethodModel, client_name: Seq<char>) -> Seq<char> {
    m.name + ": "@ + live_initializer_text(m, client_name)
}

/// The fields of the live client value.
pub open spec fn live_lines_text(methods: Seq<MethodModel>, client_name: Seq<char>) -> Seq<char>
    decreases methods.len(),
{
    if methods.len() == 0 {
        Seq::empty()
    } else if methods.len() == 1 {
        live_line_text(methods[0], client_name)
    } else {
        live_lines_text(methods.drop_last(), client_name) + ",\n                    "@
            + live_line_text(methods.last(), client_name)
    }
}

/// The helper modules of all methods, one after another.
pub open spec fn module_lines_text(methods: Seq<MethodModel>, client_name: Seq<char>) -> Seq<char>
    decreases methods.len(),
{
    if methods.len() == 0 {
        Seq::empty()
    } else if methods.len() == 1 {
        module_text(methods[0], client_name)
    } else {
        module_lines_text(methods.drop_last(), client_name) + "\n"@ + module_text(
            methods.last(),
            client_name,
        )
    }
}

/// The source text `client!` expands to for a client `name` with helper
/// module `module` and the given methods.
pub open spec fn client_text(
    visibility: Seq<char>,
    name: Seq<char>,
    module: Seq<char>,
    methods: Seq<MethodModel>,
) -> Seq<char> {
    let vp = trailing_space(visibility);
    "#[derive(Clone, Copy)]\n        "@ + vp + "struct "@ + name + " {\n            "@
        + field_lines_text(methods) + "\n        }\n\n        impl "@ + name
        + " {\n            "@ + method_lines_text(methods)
        + "\n        }\n\n        impl ::dep::Dependency for "@ + name
        + " {\n            fn live() -> Self {\n                Self {\n                    "@
        + live_lines_text(methods, name)
        + "\n                }\n            }\n        }\n\n        impl ::core::default::Default for "@
        + name
        + " {\n            fn default() -> Self {\n                <Self as ::dep::Dependency>::live()\n            }\n        }\n\n        "@
        + vp + "mod "@ + module
        + " {\n            use super::*;\n\n            pub fn get() -> super::"@ + name
        + " {\n                ::dep::get::<super::"@ + name + ">()\n            }\n\n            "@
        + module_lines_text(methods, name) + "\n        }"@
}

/// What `client!` gives for its input tokens: the expansion, or the
/// complaint about the declaration.
pub open spec fn client_result(tokens: Seq<TokenTree>) -> Result<Seq<char>, Seq<char>> {
    match first_ident(tokens, "struct"@, 0) {
        None => Err("client! expects `struct`"@),
        Some(si) => {
            let visibility = joined_text(tokens.take(si));
            match ident_at_result(tokens, si + 1, "a client name"@) {
                Err(message) => Err(message),
                Ok(name) => if !(si + 2 < tokens.len() && is_ident_named(tokens[si + 2], "as"@)) {
                    Err("client! expects `as <module_name>` after the struct name"@)
                } else {
                    match ident_at_result(tokens, si + 3, "a module name after `as`"@) {
                        Err(message) => Err(message),
                        Ok(module) => match group_stream(tokens, si + 4, Delimiter::Brace) {
                            None => Err("client! expects a braced method body"@),
                            Some(body) => if tokens.len() != si + 5 {
                                Err("unexpected tokens after the client body"@)
                            } else {
                                match methods_result(split_pieces(body, ';')) {
                                    Err(message) => Err(message),
                                    Ok(methods) => if methods.len() == 0 {
                                        Err("client! requires at least one method"@)
                                    } else {
                                        Ok(client_text(visibility, name, module, methods))
                                    },
                                }
                            },
                        },
                    }
                },
            }
        },
    }
}

/// Expands a `client!` invocation into a concrete client struct plus helper
/// modules for runtime lookup and test overrides.
pub fn expand_client(tokens: Vec<TokenTree>) -> (result: Result<String, String>)
    ensures
        text_result(result) == client_result(tokens@),
{
    let ghost orig = tokens@;
    let mut tokens = tokens;
    let n = tokens.len();
    let struct_index = match position_of_ident(tokens.as_slice(), "struct") {
        Some(index) => index,
        None => {
            return Err(String::from_str("client! expects `struct`"));
        },
    };
    let visibility = tokens_to_string(&tokens.as_slice()[0..struct_index]);
    assert(orig.subrange(0, struct_index as int) =~= orig.take(struct_index as int));
    let name = match ident_at(tokens.as_slice(), struct_index + 1, "a client name") {
        Ok(name) => name,
        Err(message) => {
            return Err(message);
        },
    };
    if !(struct_index + 2 < tokens.len() && is_ident(&tokens[struct_index + 2], "as")) {
        return Err(String::from_str("client! expects `as <module_name>` after the struct name"));
    }
    let module = match ident_at(tokens.as_slice(), struct_index + 3, "a module name after `as`") {
        Ok(module) => module,
        Err(message) => {
            return Err(message);
        },
    };
    if struct_index + 4 >= tokens.len() {
        return Err(String::from_str("client! expects a braced method body"));
    }
    let group = tokens.remove(struct_index + 4);
    let body = match group {
        TokenTree::Group(Delimiter::Brace, stream, _) => stream,
        _ => {
            return Err(String::from_str("client! expects a braced method body"));
        },
    };
    if n != struct_index + 5 {
        return Err(String::from_str("unexpected tokens after the client body"));
    }
    let methods = match parse_methods(body) {
        Ok(methods) => methods,
        Err(message) => {
            return Err(message);
        },
    };
    if methods.len() == 0 {
        return Err(String::from_str("client! requires at least one method"));
    }
    let ghost ms = methods_view(methods@);
    let visibility_prefix = with_trailing_space(visibility.as_str());
    let mut field_lines = String::new();
    let mut method_lines = String::new();
    let mut live_lines = String::new();
    let mut module_lines = String::new();
    let mut i: usize = 0;
    while i < methods.len()
        invariant
            i <= methods@.len(),
            ms == methods_view(methods@),
            field_lines@ == field_lines_text(ms.take(i as int)),
            method_lines@ == method_lines_text(ms.take(i as int)),
            live_lines@ == live_lines_text(ms.take(i as int), name@),
            module_lines@ == module_lines_text(ms.take(i as int), name@),
        decreases methods@.len() - i,
    {
        proof {
            assert(ms.take(i + 1).drop_last() =~= ms.take(i as int));
            assert(ms.take(i + 1).last() == methods@[i as int]@);
        }
        let method = &methods[i];
        if i > 0 {
            field_lines.append("\n");
            method_lines.append("\n\n");
            live_lines.append(",\n                    ");
            module_lines.append("\n");
        }
        let field = method.render_field();
        field_lines.append(field.as_str());
        let wrapper = method.render_method();
        method_lines.append(wrapper.as_str());
        live_lines.append(method.name.as_str());
        live_lines.append(": ");
        let initializer = method.render_live_initializer(name.as_str());
        live_lines.append(initializer.as_str());
        let helper = method.render_module(name.as_str());
        module_lines.append(helper.as_str());
        i = i + 1;
    }
    assert(ms.take(ms.len() as int) =~= ms);
    let mut output = String::from_str("#[derive(Clone, Copy)]\n        ");
    output.append(visibility_prefix.as_str());
    output.append("struct ");
    output.append(name.as_str());
    output.append(" {\n            ");
    output.append(field_lines.as_str());
    output.append("\n        }\n\n        impl ");
    output.append(name.as_str());
    output.append(" {\n            ");
    output.append(method_lines.as_str());
    output.append("\n        }\n\n        impl ::dep::Dependency for ");
    output.append(name.as_str());
    output.append(" {\n            fn live() -> Self {\n                Self {\n                    ");
    output.append(live_lines.as_str());
    output.append(
        "\n                }\n            }\n        }\n\n        impl ::core::default::Default for ",
    );
    output.append(name.as_str());
    output.append(
        " {\n            fn default() -> Self {\n                <Self as ::dep::Dependency>::live()\n            }\n        }\n\n        ",
    );
    output.append(visibility_prefix.as_str());
    output.append("mod ");
    output.append(module.as_str());
    output.append(" {\n            use super::*;\n\n            pub fn get() -> super::");
    output.append(name.as_str());
    output.append(" {\n                ::dep::get::<super::");
    output.append(name.as_str());
    output.append(">()\n            }\n\n            ");
    output.append(module_lines.as_str());
    output.append("\n        }");
    Ok(output)
}

/// A parsed client method has at most four arguments.
pub proof fn lemma_parsed_method_has_at_most_four_arguments(tokens: Seq<TokenTree>)
    ensures
        method_result(tokens) matches Ok(method) ==> method.arguments.len() <= 4,
{
}

/// `client!` accepts a declaration only when it declares at least one method,
/// every one of which parses.
pub proof fn lemma_expanded_client_has_methods(tokens: Seq<TokenTree>)
    ensures
        client_result(tokens) is Ok ==> exists|si: int, body: Seq<TokenTree>|
            first_ident(tokens, "struct"@, 0) == Some(si) && group_stream(
                tokens,
                si + 4,
                Delimiter::Brace,
            ) == Some(body) && (methods_result(split_pieces(body, ';')) matches Ok(methods)
                && methods.len() > 0),
{
    if client_result(tokens) is Ok {
        let si = first_ident(tokens, "struct"@, 0).unwrap();
        let body = group_stream(tokens, si + 4, Delimiter::Brace).unwrap();
        assert(first_ident(tokens, "struct"@, 0) == Some(si));
    }
}

/// The live value lists one initializer per method, in method order, with a
/// comma (and a line break) between every two consecutive initializers: the
/// initializers of `a` followed by those of `b` are those of `a + b`.
pub proof fn lemma_live_initializers_are_comma_separated(
    a: Seq<MethodModel>,
    b: Seq<MethodModel>,
    client_name: Seq<char>,
)
    requires
        a.len() > 0,
        b.len() > 0,
    ensures
        live_lines_text(a + b, client_name) == live_lines_text(a, client_name) + ",\n                    "@
            + live_lines_text(b, client_name),
    decreases b.len(),
{
    assert((a + b).drop_last() =~= a + b.drop_last());
    assert((a + b).last() == b.last());
    if b.len() == 1 {
        assert(a + b.drop_last() =~= a);
    } else {
        lemma_live_initializers_are_comma_separated(a, b.drop_last(), client_name);
    }
}

/// The live value of a one-method client initializes that method's field
/// with its live initializer.
pub proof fn lemma_live_initializer_of_one_method(m: MethodModel, client_name: Seq<char>)
    ensures
        live_lines_text(seq![m], client_name) == m.name + ": "@ + live_initializer_text(
            m,
            client_name,
        ),
{
}

/// The struct fields come one per line, in method order.
pub proof fn lemma_fields_are_line_separated(a: Seq<MethodModel>, b: Seq<MethodModel>)
    requires
        a.len() > 0,
        b.len() > 0,
    ensures
        field_lines_text(a + b) == field_lines_text(a) + "\n"@ + field_lines_text(b),
        field_lines_text(seq![a[0]]) == field_text(a[0]),
    decreases b.len(),
{
    assert((a + b).drop_last() =~= a + b.drop_last());
    assert((a + b).last() == b.last());
    if b.len() == 1 {
        assert(a + b.drop_last() =~= a);
    } else {
        lemma_fields_are_line_separated(a, b.drop_last());
    }
}

/// The wrapper methods come in method order, separated by blank lines.
pub proof fn lemma_wrappers_are_blank_line_separated(a: Seq<MethodModel>, b: Seq<MethodModel>)
    requires
        a.len() > 0,
        b.len() > 0,
    ensures
        method_lines_text(a + b) == method_lines_text(a) + "\n\n"@ + method_lines_text(b),
        method_lines_text(seq![a[0]]) == method_text(a[0]),
    decreases b.len(),
{
    assert((a + b).drop_last() =~= a + b.drop_last());
    assert((a + b).last() == b.last());
    if b.len() == 1 {
        assert(a + b.drop_last() =~= a);
    } else {
        lemma_wrappers_are_blank_line_separated(a, b.drop_last());
    }
}

/// The helper modules come in method order, one per line.
pub proof fn lemma_modules_are_line_separated(
    a: Seq<MethodModel>,
    b: Seq<MethodModel>,
    client_name: Seq<char>,
)
    requires
        a.len() > 0,
        b.len() > 0,
    ensures
        module_lines_text(a + b, client_name) == module_lines_text(a, client_name) + "\n"@
            + module_lines_text(b, client_name),
        module_lines_text(seq![a[0]], client_name) == module_text(a[0], client_name),
    decreases b.len(),
{
    assert((a + b).drop_last() =~= a + b.drop_last());
    assert((a + b).last() == b.last());
    if b.len() == 1 {
        assert(a + b.drop_last() =~= a);
    } else {
        lemma_modules_are_line_separated(a, b.drop_last(), client_name);
    }
}

/// The stored function pointer of a method returns the method's return type,
/// boxed as `::dep::BoxFuture<..>` for an `async` method, and the helper
/// module's `get` hands out a pointer of that same type.
pub proof fn lemma_field_type_matches_helper_module(m: MethodModel, client_name: Seq<char>)
    ensures
        field_text(m) == m.name + ": fn("@ + args_types_text(m.arguments) + ") -> "@ + (if m.is_async {
            "::dep::BoxFuture<"@ + m.return_ty + ">"@
        } else {
            m.return_ty
        }) + ","@,
        module_text(m, client_name).take(
            ("pub mod "@ + m.name + " {\n                    use super::*;\n\n                    pub fn get() -> fn("@
                + args_types_text(m.arguments) + ") -> "@ + (if m.is_async {
                "::dep::BoxFuture<"@ + m.return_ty + ">"@
            } else {
                m.return_ty
            })).len() as int,
        ) == "pub mod "@ + m.name + " {\n                    use super::*;\n\n                    pub fn get() -> fn("@
            + args_types_text(m.arguments) + ") -> "@ + (if m.is_async {
            "::dep::BoxFuture<"@ + m.return_ty + ">"@
        } else {
            m.return_ty
        }),
{
    let prefix = "pub mod "@ + m.name + " {\n                    use super::*;\n\n                    pub fn get() -> fn("@
        + args_types_text(m.arguments) + ") -> "@ + fn_pointer_return_text(m);
    assert(module_text(m, client_name).take(prefix.len() as int) =~= prefix);
}

/// Parsed arguments follow the comma-separated pieces one for one, in
/// declaration order: the list parses exactly when every piece does, and
/// then its `i`-th argument is what the `i`-th piece parses to. When some
/// piece fails, the complaint is that of the first failing piece.
pub proof fn lemma_arguments_in_declaration_order(pieces: Seq<Seq<TokenTree>>)
    ensures
        arguments_result(pieces) is Ok <==> forall|i: int|
            0 <= i < pieces.len() ==> #[trigger] argument_result(pieces[i]) is Ok,
        arguments_result(pieces) matches Ok(arguments) ==> arguments.len() == pieces.len()
            && forall|i: int|
            0 <= i < pieces.len() ==> #[trigger] argument_result(pieces[i]) == Ok::<
                _,
                Seq<char>,
            >(arguments[i]),
        arguments_result(pieces) matches Err(message) ==> exists|k: int|
            0 <= k < pieces.len() && #[trigger] argument_result(pieces[k]) == Err::<
                (Seq<char>, Seq<char>),
                _,
            >(message) && forall|i: int| 0 <= i < k ==> #[trigger] argument_result(pieces[i]) is Ok,
    decreases pieces.len(),
{
    if pieces.len() > 0 {
        let init = pieces.drop_last();
        lemma_arguments_in_declaration_order(init);
        assert forall|i: int| 0 <= i < init.len() implies init[i] == pieces[i] by {}
        let last = pieces.len() - 1;
        assert(pieces.last() == pieces[last]);
        if arguments_result(init) is Err {
            let message = arguments_result(init)->Err_0;
            let k = choose|k: int|
                0 <= k < init.len() && #[trigger] argument_result(init[k]) == Err::<
                    (Seq<char>, Seq<char>),
                    _,
                >(message) && forall|i: int| 0 <= i < k ==> #[trigger] argument_result(init[i]) is Ok;
            assert(init[k] == pieces[k]);
            assert(forall|i: int| 0 <= i < k ==> init[i] == pieces[i]);
        } else if argument_result(pieces[last]) is Err {
            assert(forall|i: int| 0 <= i < last ==> init[i] == pieces[i]);
            assert(forall|i: int| 0 <= i < last ==> argument_result(init[i]) is Ok);
        }
    }
}

/// Parsed methods follow the `;`-separated pieces one for one, in
/// declaration order.
pub proof fn lemma_methods_in_declaration_order(pieces: Seq<Seq<TokenTree>>)
    ensures
        methods_result(pieces) is Ok <==> forall|i: int|
            0 <= i < pieces.len() ==> #[trigger] method_result(pieces[i]) is Ok,
        methods_result(pieces) matches Ok(methods) ==> methods.len() == pieces.len()
            && forall|i: int|
            0 <= i < pieces.len() ==> #[trigger] method_result(pieces[i]) == Ok::<
                _,
                Seq<char>,
            >(methods[i]),
    decreases pieces.len(),
{
    if pieces.len() > 0 {
        let init = pieces.drop_last();
        lemma_methods_in_declaration_order(init);
        assert forall|i: int| 0 <= i < init.len() implies init[i] == pieces[i] by {}
        assert(pieces.last() == pieces[pieces.len() - 1]);
    }
}

/// An argument is `name: Type`, read around its first `:`. It parses exactly
/// when an identifier stands before that `:` and the tokens after it have
/// some text; the name is the last identifier before the `:`, and the type is
/// the text of every token after it, separated by single spaces.
pub proof fn lemma_argument_is_name_colon_type(tokens: Seq<TokenTree>, colon: int)
    requires
        0 <= colon < tokens.len(),
        is_punct_char(tokens[colon], ':'),
        forall|i: int| 0 <= i < colon ==> !#[trigger] is_punct_char(tokens[i], ':'),
    ensures
        argument_result(tokens) is Ok <==> (exists|j: int| 0 <= j < colon && #[trigger] tokens[j] is Ident)
            && joined_text(tokens.skip(colon + 1)).len() > 0,
        argument_result(tokens) matches Ok(argument) ==> Some(argument.0) == last_ident_before(
            tokens,
            colon,
        ) && argument.1 == joined_text(tokens.skip(colon + 1)),
{
    crate::tokens::lemma_first_punct_is_first(tokens, ':', 0);
    crate::tokens::lemma_last_ident_before_is_last(tokens, colon);
}

/// The expansion declares the client struct with one stored field per method.
#[verifier::rlimit(60)]
pub proof fn lemma_client_declares_struct_fields(
    visibility: Seq<char>,
    name: Seq<char>,
    module: Seq<char>,
    methods: Seq<MethodModel>,
)
    ensures
        contains_text(client_text(visibility, name, module, methods), "struct "@ + name + " {\n            "@ + field_lines_text(methods)),
{
    let before = ("#[derive(Clone, Copy)]\n        "@ + trailing_space(visibility));
    let part = "struct "@ + name + " {\n            "@ + field_lines_text(methods);
    let after = ("\n        }\n\n        impl "@ + name + " {\n            "@ + method_lines_text(methods)) + ("\n        }\n\n        impl ::dep::Dependency for "@ + name + " {\n            fn live() -> Self {\n                Self {\n                    "@ + live_lines_text(methods, name)) + ("\n                }\n            }\n        }\n\n        impl ::core::default::Default for "@ + name + " {\n            fn default() -> Self {\n                <Self as ::dep::Dependency>::live()\n            }\n        }\n\n        "@) + (trailing_space(visibility)) + ("mod "@ + module + " {\n            use super::*;\n\n            pub fn get() -> super::"@ + name + " {\n                ::dep::get::<super::"@ + name + ">()\n            }\n\n            "@ + module_lines_text(methods, name) + "\n        }"@);
    assert(client_text(visibility, name, module, methods) =~= before + part + after);
    lemma_contains_middle(before, part, after);
}

/// The expansion gives the client one wrapper method per method.
#[verifier::rlimit(100)]
#[verifier::spinoff_prover]
pub proof fn lemma_client_declares_wrappers(
    visibility: Seq<char>,
    name: Seq<char>,
    module: Seq<char>,
    methods: Seq<MethodModel>,
)
    ensures
        contains_text(client_text(visibility, name, module, methods), "\n        }\n\n        impl "@ + name + " {\n            "@ + method_lines_text(methods)),
{
    let before = ("#[derive(Clone, Copy)]\n        "@ + trailing_space(visibility)) + ("struct "@ + name + " {\n            "@ + field_lines_text(methods));
    let part = "\n        }\n\n        impl "@ + name + " {\n            "@ + method_lines_text(methods);
    let after = ("\n        }\n\n        impl ::dep::Dependency for "@ + name + " {\n            fn live() -> Self {\n                Self {\n                    "@ + live_lines_text(methods, name)) + ("\n                }\n            }\n        }\n\n        impl ::core::default::Default for "@ + name + " {\n            fn default() -> Self {\n                <Self as ::dep::Dependency>::live()\n            }\n        }\n\n        "@) + (trailing_space(visibility)) + ("mod "@ + module + " {\n            use super::*;\n\n            pub fn get() -> super::"@ + name + " {\n                ::dep::get::<super::"@ + name + ">()\n            }\n\n            "@ + module_lines_text(methods, name) + "\n        }"@);
    assert(client_text(visibility, name, module, methods) =~= before + part + after);
    lemma_contains_middle(before, part, after);
}

/// The live `Dependency` impl builds the value from the live initializers of
/// all methods.
#[verifier::rlimit(60)]
pub proof fn lemma_client_live_value_initializes_every_method(
    visibility: Seq<char>,
    name: Seq<char>,
    module: Seq<char>,
    methods: Seq<MethodModel>,
)
    ensures
        contains_text(client_text(visibility, name, module, methods), "\n        }\n\n        impl ::dep::Dependency for "@ + name + " {\n            fn live() -> Self {\n                Self {\n                    "@ + live_lines_text(methods, name)),
{
    let before = ("#[derive(Clone, Copy)]\n        "@ + trailing_space(visibility)) + ("struct "@ + name + " {\n            "@ + field_lines_text(methods)) + ("\n        }\n\n        impl "@ + name + " {\n            "@ + method_lines_text(methods));
    let part = "\n        }\n\n        impl ::dep::Dependency for "@ + name + " {\n            fn live() -> Self {\n                Self {\n                    "@ + live_lines_text(methods, name);
    let after = ("\n                }\n            }\n        }\n\n        impl ::core::default::Default for "@ + name + " {\n            fn default() -> Self {\n                <Self as ::dep::Dependency>::live()\n            }\n        }\n\n        "@) + (trailing_space(visibility)) + ("mod "@ + module + " {\n            use super::*;\n\n            pub fn get() -> super::"@ + name + " {\n                ::dep::get::<super::"@ + name + ">()\n            }\n\n            "@ + module_lines_text(methods, name) + "\n        }"@);
    assert(client_text(visibility, name, module, methods) =~= before + part + after);
    lemma_contains_middle(before, part, after);
}

/// The `Default` impl of the client returns its live value.
#[verifier::rlimit(100)]
#[verifier::spinoff_prover]
pub proof fn lemma_client_default_is_live(
    visibility: Seq<char>,
    name: Seq<char>,
    module: Seq<char>,
    methods: Seq<MethodModel>,
)
    ensures
        contains_text(client_text(visibility, name, module, methods), "\n                }\n            }\n        }\n\n        impl ::core::default::Default for "@ + name + " {\n            fn default() -> Self {\n                <Self as ::dep::Dependency>::live()\n            }\n        }\n\n        "@),
{
    let before = ("#[derive(Clone, Copy)]\n        "@ + trailing_space(visibility)) + ("struct "@ + name + " {\n            "@ + field_lines_text(methods)) + ("\n        }\n\n        impl "@ + name + " {\n            "@ + method_lines_text(methods)) + ("\n        }\n\n        impl ::dep::Dependency for "@ + name + " {\n            fn live() -> Self {\n                Self {\n                    "@ + live_lines_text(methods, name));
    let part = "\n                }\n            }\n        }\n\n        impl ::core::default::Default for "@ + name + " {\n            fn default() -> Self {\n                <Self as ::dep::Dependency>::live()\n            }\n        }\n\n        "@;
    let after = (trailing_space(visibility)) + ("mod "@ + module + " {\n            use super::*;\n\n            pub fn get() -> super::"@ + name + " {\n                ::dep::get::<super::"@ + name + ">()\n            }\n\n            "@ + module_lines_text(methods, name) + "\n        }"@);
    assert(client_text(visibility, name, module, methods) =~= before + part + after);
    lemma_contains_middle(before, part, after);
}

/// The helper module's `get` resolves the client, and the module holds one
/// helper module per method.
#[verifier::rlimit(60)]
pub proof fn lemma_client_helper_module_resolves_client(
    visibility: Seq<char>,
    name: Seq<char>,
    module: Seq<char>,
    methods: Seq<MethodModel>,
)
    ensures
        contains_text(client_text(visibility, name, module, methods), "mod "@ + module + " {\n            use super::*;\n\n            pub fn get() -> super::"@ + name + " {\n                ::dep::get::<super::"@ + name + ">()\n            }\n\n            "@ + module_lines_text(methods, name) + "\n        }"@),
{
    let before = ("#[derive(Clone, Copy)]\n        "@ + trailing_space(visibility)) + ("struct "@ + name + " {\n            "@ + field_lines_text(methods)) + ("\n        }\n\n        impl "@ + name + " {\n            "@ + method_lines_text(methods)) + ("\n        }\n\n        impl ::dep::Dependency for "@ + name + " {\n            fn live() -> Self {\n                Self {\n                    "@ + live_lines_text(methods, name)) + ("\n                }\n            }\n        }\n\n        impl ::core::default::Default for "@ + name + " {\n            fn default() -> Self {\n                <Self as ::dep::Dependency>::live()\n            }\n        }\n\n        "@) + (trailing_space(visibility));
    let part = "mod "@ + module + " {\n            use super::*;\n\n            pub fn get() -> super::"@ + name + " {\n                ::dep::get::<super::"@ + name + ">()\n            }\n\n            "@ + module_lines_text(methods, name) + "\n        }"@;
    let after = Seq::<char>::empty();
    assert(client_text(visibility, name, module, methods) =~= before + part + after);
    lemma_contains_middle(before, part, after);
}

/// A method's implementation is stored through the eraser of its shape
/// (`erase_sync_N` or `erase_async_N`, `N` its number of arguments): the live
/// initializer hands the declared implementation to it, and the helper
/// module's `override_with` hands an override to the same eraser.
pub proof fn lemma_live_and_override_share_the_eraser(m: MethodModel, client_name: Seq<char>)
    ensures
        eraser_name_text(m) == (if m.is_async {
            "::dep::erase_async_"@
        } else {
            "::dep::erase_sync_"@
        }) + decimal(m.arguments.len()),
        m.implementation matches Some(implementation) ==> live_initializer_text(m, client_name)
            == eraser_name_text(m) + "("@ + implementation + ")"@,
        contains_text(
            module_text(m, client_name),
            eraser_name_text(m)
                + "(implementation);\n                            dependency\n                        });\n                    }\n                }"@,
        ),
{
    let text = module_text(m, client_name);
    let part = eraser_name_text(m)
        + "(implementation);\n                            dependency\n                        });\n                    }\n                }"@;
    let i = text.len() - part.len();
    assert(text.subrange(i, i + part.len()) =~= part);
}

/// Argument lists render in declaration order, comma separated: the
/// declarations, types and names of `a + b` are those of `a`, a comma, and
/// those of `b`; one argument renders as `name: Type`, `Type` and `name`.
pub proof fn lemma_argument_lists_in_declaration_order(
    a: Seq<(Seq<char>, Seq<char>)>,
    b: Seq<(Seq<char>, Seq<char>)>,
)
    requires
        a.len() > 0,
        b.len() > 0,
    ensures
        args_decl_text(a + b) == args_decl_text(a) + ", "@ + args_decl_text(b),
        args_types_text(a + b) == args_types_text(a) + ", "@ + args_types_text(b),
        args_names_text(a + b) == args_names_text(a) + ", "@ + args_names_text(b),
        args_decl_text(seq![a[0]]) == a[0].0 + ": "@ + a[0].1,
        args_types_text(seq![a[0]]) == a[0].1,
        args_names_text(seq![a[0]]) == a[0].0,
{
    let d = |x: (Seq<char>, Seq<char>)| arg_decl(x);
    let t = |x: (Seq<char>, Seq<char>)| x.1;
    let n = |x: (Seq<char>, Seq<char>)| x.0;
    assert((a + b).map_values(d) =~= a.map_values(d) + b.map_values(d));
    assert((a + b).map_values(t) =~= a.map_values(t) + b.map_values(t));
    assert((a + b).map_values(n) =~= a.map_values(n) + b.map_values(n));
    crate::text::lemma_join_concat(a.map_values(d), b.map_values(d), ", "@);
    crate::text::lemma_join_concat(a.map_values(t), b.map_values(t), ", "@);
    crate::text::lemma_join_concat(a.map_values(n), b.map_values(n), ", "@);
    assert(seq![a[0]].map_values(d) =~= seq![arg_decl(a[0])]);
    assert(seq![a[0]].map_values(t) =~= seq![a[0].1]);
    assert(seq![a[0]].map_values(n) =~= seq![a[0].0]);
}

/// A method declared without an implementation gets a stub of the method's
/// own signature (its arguments, and its return type, boxed as a future for
/// an `async` method) that reports the method as `client.method`.
pub proof fn lemma_unimplemented_stub_matches_signature(m: MethodModel, client_name: Seq<char>)
    requires
        m.implementation is None,
    ensures
        contains_text(
            live_initializer_text(m, client_name),
            args_decl_text(m.arguments) + (if m.is_async {
                ") -> ::dep::BoxFuture<"@ + m.return_ty
            } else {
                ") -> "@ + m.return_ty
            }),
        ),
        contains_text(live_initializer_text(m, client_name), client_name + "."@ + m.name),
{
    let text = live_initializer_text(m, client_name);
    let args = args_decl_text(m.arguments);
    let part = client_name + "."@ + m.name;
    if m.is_async {
        let sig = args + ") -> ::dep::BoxFuture<"@ + m.return_ty;
        let before = "{\n                        fn __dep_unimplemented("@;
        let after = "> {\n                            ::dep::boxed(async move {\n                                ::dep::unimplemented_dependency(\""@ + client_name + "."@ + m.name + "\")\n                            })\n                        }\n\n                        __dep_unimplemented\n                    }"@;
        assert(text =~= before + sig + after);
        lemma_contains_middle(before, sig, after);
        assert(sig =~= args + (if m.is_async {
            ") -> ::dep::BoxFuture<"@ + m.return_ty
        } else {
            ") -> "@ + m.return_ty
        }));
        let before2 = "{\n                        fn __dep_unimplemented("@ + args + ") -> ::dep::BoxFuture<"@ + m.return_ty + "> {\n                            ::dep::boxed(async move {\n                                ::dep::unimplemented_dependency(\""@;
        let after2 = "\")\n                            })\n                        }\n\n                        __dep_unimplemented\n                    }"@;
        assert(text =~= before2 + part + after2);
        lemma_contains_middle(before2, part, after2);
    } else {
        let sig = args + ") -> "@ + m.return_ty;
        let before = "{\n                        fn __dep_unimplemented("@;
        let after = " {\n                            ::dep::unimplemented_dependency(\""@ + client_name + "."@ + m.name + "\")\n                        }\n\n                        __dep_unimplemented\n                    }"@;
        assert(text =~= before + sig + after);
        lemma_contains_middle(before, sig, after);
        assert(sig =~= args + (if m.is_async {
            ") -> ::dep::BoxFuture<"@ + m.return_ty
        } else {
            ") -> "@ + m.return_ty
        }));
        let before2 = "{\n                        fn __dep_unimplemented("@ + args + ") -> "@ + m.return_ty + " {\n                            ::dep::unimplemented_dependency(\""@;
        let after2 = "\")\n                        }\n\n                        __dep_unimplemented\n                    }"@;
        assert(text =~= before2 + part + after2);
        lemma_contains_middle(before2, part, after2);
    }
}

} // verus!
