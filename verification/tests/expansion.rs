use dep::{
    derive_depends_impl, expand_client, ident_at, matches_dep_attribute, parse_arguments,
    parse_method, split_top_level, stream_to_string, tokens_to_string, Argument, Delimiter,
    Method, Spacing, TokenTree,
};

fn ident(name: &str) -> TokenTree {
    TokenTree::Ident(name.to_string())
}

fn punct(ch: char) -> TokenTree {
    TokenTree::Punct(ch, Spacing::Alone)
}

fn joint(ch: char) -> TokenTree {
    TokenTree::Punct(ch, Spacing::Joint)
}

fn group(delimiter: Delimiter, inner: Vec<TokenTree>, text: &str) -> TokenTree {
    TokenTree::Group(delimiter, inner, text.to_string())
}

fn arrow() -> Vec<TokenTree> {
    vec![joint('-'), punct('>')]
}

/// `Vec<Result<u64, DependencyError>>`
fn generic_type() -> Vec<TokenTree> {
    vec![
        ident("Vec"),
        punct('<'),
        ident("Result"),
        punct('<'),
        ident("u64"),
        punct(','),
        ident("DependencyError"),
        joint('>'),
        punct('>'),
    ]
}

/// `pub fn now_millis() -> u64 = || 1234`
fn now_millis_method() -> Vec<TokenTree> {
    let mut tokens = vec![
        ident("pub"),
        ident("fn"),
        ident("now_millis"),
        group(Delimiter::Parenthesis, vec![], "()"),
    ];
    tokens.extend(arrow());
    tokens.extend(vec![
        ident("u64"),
        punct('='),
        joint('|'),
        punct('|'),
        TokenTree::Literal("1234".to_string()),
    ]);
    tokens
}

/// `pub async fn fetch_user(id: u64) -> Result<User, Error>`
fn fetch_user_method() -> Vec<TokenTree> {
    let mut tokens = vec![
        ident("pub"),
        ident("async"),
        ident("fn"),
        ident("fetch_user"),
        group(
            Delimiter::Parenthesis,
            vec![ident("id"), punct(':'), ident("u64")],
            "(id : u64)",
        ),
    ];
    tokens.extend(arrow());
    tokens.extend(vec![
        ident("Result"),
        punct('<'),
        ident("User"),
        punct(','),
        ident("Error"),
        punct('>'),
    ]);
    tokens
}

#[test]
fn tokens_render_with_spaces() {
    assert_eq!(tokens_to_string(&generic_type()), "Vec < Result < u64 , DependencyError > >");
    assert_eq!(stream_to_string(&generic_type()), "Vec < Result < u64 , DependencyError >>");
    let path = vec![ident("std"), joint(':'), punct(':'), ident("path")];
    assert_eq!(tokens_to_string(&path), "std : : path");
    assert_eq!(stream_to_string(&path), "std :: path");
}

#[test]
fn commas_inside_angle_brackets_do_not_split() {
    let mut tokens = vec![ident("inputs"), punct(':')];
    tokens.extend(generic_type());
    let pieces = split_top_level(tokens, ',');
    assert_eq!(pieces.len(), 1);
    assert_eq!(pieces[0].len(), 11);
}

#[test]
fn top_level_separators_split_and_empty_pieces_are_dropped() {
    let tokens = vec![punct(','), ident("a"), punct(','), punct(','), ident("b"), punct(',')];
    let pieces = split_top_level(tokens, ',');
    assert_eq!(pieces.len(), 2);
    assert_eq!(pieces[0].len(), 1);
    assert_eq!(pieces[1].len(), 1);
    let joined = vec![ident("a"), joint(','), ident("b")];
    assert_eq!(split_top_level(joined, ',').len(), 1);
}

#[test]
fn ident_at_reports_what_was_expected() {
    let tokens = vec![ident("struct"), punct('<')];
    assert_eq!(ident_at(&tokens, 0, "a name"), Ok("struct".to_string()));
    assert_eq!(ident_at(&tokens, 1, "a name"), Err("expected a name".to_string()));
    assert_eq!(ident_at(&tokens, 5, "a name"), Err("expected a name".to_string()));
}

#[test]
fn dep_attribute_is_recognized() {
    let tokens = vec![
        punct('#'),
        group(Delimiter::Bracket, vec![ident("dep")], "[dep]"),
        ident("clock"),
    ];
    assert!(matches_dep_attribute(&tokens, 0));
    assert!(!matches_dep_attribute(&tokens, 1));
    let other = vec![punct('#'), group(Delimiter::Bracket, vec![ident("arg")], "[arg]")];
    assert!(!matches_dep_attribute(&other, 0));
}

#[test]
fn parses_a_sync_method_with_implementation() {
    let method = parse_method(now_millis_method()).expect("method should parse");
    assert_eq!(method.name, "now_millis");
    assert_eq!(method.visibility, "pub");
    assert!(method.arguments.is_empty());
    assert_eq!(method.return_ty, "u64");
    assert_eq!(method.implementation, Some("| | 1234".to_string()));
    assert!(!method.is_async);
}

#[test]
fn parses_an_async_method_without_implementation() {
    let method = parse_method(fetch_user_method()).expect("method should parse");
    assert_eq!(method.name, "fetch_user");
    assert_eq!(method.visibility, "pub");
    assert_eq!(method.arguments.len(), 1);
    assert_eq!(method.arguments[0].name, "id");
    assert_eq!(method.arguments[0].ty, "u64");
    assert_eq!(method.return_ty, "Result < User , Error >");
    assert_eq!(method.implementation, None);
    assert!(method.is_async);
}

#[test]
fn generic_argument_types_stay_one_argument() {
    let mut inner = vec![ident("inputs"), punct(':')];
    inner.extend(generic_type());
    let arguments = parse_arguments(inner).expect("argument should parse");
    assert_eq!(arguments.len(), 1);
    assert_eq!(arguments[0].name, "inputs");
    assert_eq!(arguments[0].ty, "Vec < Result < u64 , DependencyError > >");
}

#[test]
fn method_errors_name_the_problem() {
    assert_eq!(parse_method(vec![]).err(), Some("empty method definition".to_string()));
    assert_eq!(
        parse_method(vec![ident("pub"), ident("now")]).err(),
        Some("client methods must use `fn`".to_string())
    );
    assert_eq!(
        parse_method(vec![ident("fn"), punct('(')]).err(),
        Some("expected a method name".to_string())
    );
    assert_eq!(
        parse_method(vec![ident("fn"), ident("now")]).err(),
        Some("method `now` is missing its argument list".to_string())
    );
    assert_eq!(
        parse_method(vec![ident("fn"), ident("now"), group(Delimiter::Brace, vec![], "{}")]).err(),
        Some("method `now` is missing its argument list".to_string())
    );
    assert_eq!(
        parse_method(vec![
            ident("fn"),
            ident("now"),
            group(Delimiter::Parenthesis, vec![], "()"),
            ident("u64"),
        ])
        .err(),
        Some("method `now` is missing `->`".to_string())
    );
    let mut no_return = vec![ident("fn"), ident("now"), group(Delimiter::Parenthesis, vec![], "()")];
    no_return.extend(arrow());
    no_return.extend(vec![punct('='), ident("x")]);
    assert_eq!(
        parse_method(no_return).err(),
        Some("method `now` is missing a return type".to_string())
    );
}

#[test]
fn argument_errors_name_the_problem() {
    assert_eq!(
        parse_arguments(vec![ident("id")]).err(),
        Some("expected arguments to look like `name: Type`".to_string())
    );
    assert_eq!(
        parse_arguments(vec![punct(':'), ident("u64")]).err(),
        Some("expected an argument name".to_string())
    );
    assert_eq!(
        parse_arguments(vec![ident("id"), punct(':')]).err(),
        Some("expected an argument type".to_string())
    );
}

#[test]
fn more_than_four_arguments_are_rejected() {
    let mut inner = Vec::new();
    for name in ["a", "b", "c", "d", "e"] {
        inner.extend(vec![ident(name), punct(':'), ident("u8"), punct(',')]);
    }
    let mut tokens =
        vec![ident("fn"), ident("many"), group(Delimiter::Parenthesis, inner, "(...)")];
    tokens.extend(arrow());
    tokens.push(ident("u8"));
    assert_eq!(
        parse_method(tokens).err(),
        Some("method `many` has 5 arguments, but only up to 4 are supported right now".to_string())
    );
}

fn sample_method(is_async: bool, implementation: Option<&str>) -> Method {
    Method {
        name: "fetch_user".to_string(),
        visibility: "pub".to_string(),
        arguments: vec![
            Argument { name: "id".to_string(), ty: "u64".to_string() },
            Argument { name: "name".to_string(), ty: "String".to_string() },
        ],
        return_ty: "Result < User , Error >".to_string(),
        implementation: implementation.map(|text| text.to_string()),
        is_async,
    }
}

#[test]
fn renders_method_pieces() {
    let method = sample_method(false, Some("| id , name | Ok (id)"));
    assert_eq!(method.arity(), 2);
    assert_eq!(method.eraser_name(), "::dep::erase_sync_2");
    assert_eq!(method.args_decl(), "id: u64, name: String");
    assert_eq!(method.args_types(), "u64, String");
    assert_eq!(method.args_names(), "id, name");
    assert_eq!(method.fn_pointer_return(), "Result < User , Error >");
    assert_eq!(method.render_field(), "fetch_user: fn(u64, String) -> Result < User , Error >,");
    assert_eq!(
        method.render_method(),
        "pub fn fetch_user(&self, id: u64, name: String) -> Result < User , Error > {\n                (self.fetch_user)(id, name)\n            }"
    );
    assert_eq!(
        method.render_live_initializer("UserClient"),
        "::dep::erase_sync_2(| id , name | Ok (id))"
    );

    let method = sample_method(true, None);
    assert_eq!(method.eraser_name(), "::dep::erase_async_2");
    assert_eq!(method.fn_pointer_return(), "::dep::BoxFuture<Result < User , Error >>");
    assert_eq!(
        method.render_method(),
        "pub async fn fetch_user(&self, id: u64, name: String) -> Result < User , Error > {\n                (self.fetch_user)(id, name).await\n            }"
    );
    assert_eq!(
        method.render_live_initializer("UserClient"),
        format!(
            "{{\n                        fn __dep_unimplemented({}) -> ::dep::BoxFuture<{}> {{\n                            ::dep::boxed(async move {{\n                                ::dep::unimplemented_dependency(\"{}.{}\")\n                            }})\n                        }}\n\n                        __dep_unimplemented\n                    }}",
            "id: u64, name: String", "Result < User , Error >", "UserClient", "fetch_user"
        )
    );
    let sync_missing = sample_method(false, None);
    assert_eq!(
        sync_missing.render_live_initializer("UserClient"),
        format!(
            "{{\n                        fn __dep_unimplemented({}) -> {} {{\n                            ::dep::unimplemented_dependency(\"{}.{}\")\n                        }}\n\n                        __dep_unimplemented\n                    }}",
            "id: u64, name: String", "Result < User , Error >", "UserClient", "fetch_user"
        )
    );
}

fn reference_module(name: &str, types: &str, fn_return: &str, ret: &str, eraser: &str, client: &str, is_async: bool) -> String {
    if is_async {
        format!(
            "pub mod {} {{\n                    use super::*;\n\n                    pub fn get() -> fn({}) -> {} {{\n                        super::get().{}\n                    }}\n\n                    pub fn override_with<F, Fut>(builder: &mut ::dep::OverrideBuilder, implementation: F)\n                    where\n                        F: Fn({}) -> Fut + Copy + 'static,\n                        Fut: ::core::future::Future<Output = {}> + Send + 'static,\n                    {{\n                        builder.update::<super::super::{client}, _>(|mut dependency| {{\n                            dependency.{} = {}(implementation);\n                            dependency\n                        }});\n                    }}\n                }}",
            name, types, fn_return, name, types, ret, name, eraser
        )
    } else {
        format!(
            "pub mod {} {{\n                    use super::*;\n\n                    pub fn get() -> fn({}) -> {} {{\n                        super::get().{}\n                    }}\n\n                    pub fn override_with<F>(builder: &mut ::dep::OverrideBuilder, implementation: F)\n                    where\n                        F: Fn({}) -> {} + Copy + 'static,\n                    {{\n                        builder.update::<super::super::{client}, _>(|mut dependency| {{\n                            dependency.{} = {}(implementation);\n                            dependency\n                        }});\n                    }}\n                }}",
            name, types, fn_return, name, types, ret, name, eraser
        )
    }
}

#[test]
fn renders_helper_modules() {
    let sync_method = sample_method(false, None);
    assert_eq!(
        sync_method.render_module("UserClient"),
        reference_module("fetch_user", "u64, String", "Result < User , Error >", "Result < User , Error >", "::dep::erase_sync_2", "UserClient", false)
    );
    let async_method = sample_method(true, None);
    assert_eq!(
        async_method.render_module("UserClient"),
        reference_module("fetch_user", "u64, String", "::dep::BoxFuture<Result < User , Error >>", "Result < User , Error >", "::dep::erase_async_2", "UserClient", true)
    );
}

fn clock_client_tokens() -> Vec<TokenTree> {
    let mut body = now_millis_method();
    body.push(punct(';'));
    vec![
        ident("pub"),
        ident("struct"),
        ident("Clock"),
        ident("as"),
        ident("clock"),
        group(Delimiter::Brace, body, "{ ... }"),
    ]
}

#[test]
fn expands_a_client_declaration() {
    let output = expand_client(clock_client_tokens()).expect("client should expand");
    let visibility_prefix = "pub ";
    let name = "Clock";
    let module = "clock";
    let field_lines = "now_millis: fn() -> u64,";
    let method_lines = "pub fn now_millis(&self) -> u64 {\n                (self.now_millis)()\n            }";
    let live_lines = "now_millis: ::dep::erase_sync_0(| | 1234)";
    let module_lines = reference_module("now_millis", "", "u64", "u64", "::dep::erase_sync_0", "Clock", false);
    let expected = format!(
        "#[derive(Clone, Copy)]
        {visibility_prefix}struct {name} {{
            {field_lines}
        }}

        impl {name} {{
            {method_lines}
        }}

        impl ::dep::Dependency for {name} {{
            fn live() -> Self {{
                Self {{
                    {live_lines}
                }}
            }}
        }}

        impl ::core::default::Default for {name} {{
            fn default() -> Self {{
                <Self as ::dep::Dependency>::live()
            }}
        }}

        {visibility_prefix}mod {module} {{
            use super::*;

            pub fn get() -> super::{name} {{
                ::dep::get::<super::{name}>()
            }}

            {module_lines}
        }}"
    );
    assert_eq!(output, expected);
}

#[test]
fn client_declaration_errors() {
    assert_eq!(expand_client(vec![ident("pub")]).err(), Some("client! expects `struct`".to_string()));
    assert_eq!(
        expand_client(vec![ident("struct")]).err(),
        Some("expected a client name".to_string())
    );
    assert_eq!(
        expand_client(vec![ident("struct"), ident("Clock"), ident("clock")]).err(),
        Some("client! expects `as <module_name>` after the struct name".to_string())
    );
    assert_eq!(
        expand_client(vec![ident("struct"), ident("Clock"), ident("as")]).err(),
        Some("expected a module name after `as`".to_string())
    );
    assert_eq!(
        expand_client(vec![ident("struct"), ident("Clock"), ident("as"), ident("clock")]).err(),
        Some("client! expects a braced method body".to_string())
    );
    let mut trailing = clock_client_tokens();
    trailing.push(punct(';'));
    assert_eq!(
        expand_client(trailing).err(),
        Some("unexpected tokens after the client body".to_string())
    );
    let empty = vec![
        ident("struct"),
        ident("Clock"),
        ident("as"),
        ident("clock"),
        group(Delimiter::Brace, vec![punct(';')], "{ ; }"),
    ];
    assert_eq!(
        expand_client(empty).err(),
        Some("client! requires at least one method".to_string())
    );
}

fn attribute(name: &str) -> Vec<TokenTree> {
    vec![punct('#'), group(Delimiter::Bracket, vec![ident(name)], &format!("[{name}]"))]
}

#[test]
fn derives_dependency_backed_construction() {
    let mut fields = attribute("dep");
    fields.extend(vec![ident("clock"), punct(':'), ident("Clock"), punct(',')]);
    fields.extend(vec![ident("cached_ids"), punct(':')]);
    fields.extend(generic_type());
    let tokens = vec![
        ident("pub"),
        ident("struct"),
        ident("DerivedGenericHolder"),
        group(Delimiter::Brace, fields, "{ ... }"),
    ];
    let output = derive_depends_impl(tokens).expect("derive should expand");
    let name = "DerivedGenericHolder";
    let initializers = "clock: ::dep::get::<Clock>(), cached_ids: ::core::default::Default::default()";
    let expected = format!(
        "impl ::core::default::Default for {name} {{
            fn default() -> Self {{
                Self {{ {initializers} }}
            }}
        }}

        impl {name} {{
            #[doc = \"Constructs `Self` by resolving every `#[dep]` field from the dependency system and initializing all other fields with `Default::default()`.\"]
            pub fn from_deps() -> Self {{
                ::core::default::Default::default()
            }}
        }}",
    );
    assert_eq!(output, expected);
}

#[test]
fn arg_fields_become_from_deps_parameters() {
    let mut fields = attribute("dep");
    fields.extend(vec![ident("clock"), punct(':'), ident("Clock"), punct(',')]);
    fields.extend(attribute("arg"));
    fields.extend(vec![ident("config"), punct(':'), ident("Config"), punct(',')]);
    fields.extend(vec![ident("fetcher"), punct(':'), ident("Fetcher")]);
    let tokens = vec![ident("struct"), ident("App"), group(Delimiter::Brace, fields, "{ ... }")];
    let output = derive_depends_impl(tokens).expect("derive should expand");
    let expected = "impl App {\n            #[doc = \"Constructs `Self` by resolving every `#[dep]` field from the dependency system, taking every `#[arg]` field from the caller and initializing all other fields with `Default::default()`.\"]\n            pub fn from_deps(config: Config) -> Self {\n                Self { clock: ::dep::get::<Clock>(), config, fetcher: ::core::default::Default::default() }\n            }\n        }";
    assert_eq!(output, expected);
}

#[test]
fn derive_errors() {
    assert_eq!(
        derive_depends_impl(vec![ident("enum"), ident("E")]).err(),
        Some("Depends can only be derived for structs".to_string())
    );
    assert_eq!(
        derive_depends_impl(vec![ident("struct")]).err(),
        Some("expected a struct name".to_string())
    );
    assert_eq!(
        derive_depends_impl(vec![ident("struct"), ident("S")]).err(),
        Some("expected a braced struct body".to_string())
    );
    assert_eq!(
        derive_depends_impl(vec![
            ident("struct"),
            ident("S"),
            punct('<'),
            ident("T"),
            punct('>'),
        ])
        .err(),
        Some("Depends does not support generics or where clauses yet".to_string())
    );
    assert_eq!(
        derive_depends_impl(vec![
            ident("struct"),
            ident("S"),
            group(Delimiter::Brace, vec![ident("x")], "{ x }"),
        ])
        .err(),
        Some("expected a named struct field".to_string())
    );
    assert_eq!(
        derive_depends_impl(vec![
            ident("struct"),
            ident("S"),
            group(Delimiter::Brace, vec![punct(':'), ident("u8")], "{ : u8 }"),
        ])
        .err(),
        Some("expected a field name".to_string())
    );
    assert_eq!(
        derive_depends_impl(vec![
            ident("struct"),
            ident("S"),
            group(Delimiter::Brace, vec![ident("x"), punct(':')], "{ x : }"),
        ])
        .err(),
        Some("expected a field type".to_string())
    );
}

#[test]
fn arrow_inside_generic_arguments_does_not_close_them() {
    // `m: HashMap<fn() -> u8, u8>`
    let mut tokens = vec![
        ident("m"),
        punct(':'),
        ident("HashMap"),
        punct('<'),
        ident("fn"),
        group(Delimiter::Parenthesis, vec![], "()"),
    ];
    tokens.extend(arrow());
    tokens.extend(vec![ident("u8"), punct(','), ident("u8"), punct('>')]);
    let pieces = split_top_level(tokens, ',');
    assert_eq!(pieces.len(), 1);
    assert_eq!(tokens_to_string(&pieces[0]), "m : HashMap < fn () - > u8 , u8 >");

    // `a: Vec<fn() -> u8>, b: u8` still splits after the closing `>`.
    let mut two = vec![
        ident("a"),
        punct(':'),
        ident("Vec"),
        punct('<'),
        ident("fn"),
        group(Delimiter::Parenthesis, vec![], "()"),
    ];
    two.extend(arrow());
    two.extend(vec![
        ident("u8"),
        punct('>'),
        punct(','),
        ident("b"),
        punct(':'),
        ident("u8"),
    ]);
    let pieces = split_top_level(two, ',');
    assert_eq!(pieces.len(), 2);
    assert_eq!(tokens_to_string(&pieces[1]), "b : u8");
}

#[test]
fn fat_arrow_inside_generic_arguments_does_not_close_them() {
    // `Pair<X => Y, Z>` keeps its comma inside the brackets.
    let tokens = vec![
        ident("Pair"),
        punct('<'),
        ident("X"),
        joint('='),
        punct('>'),
        ident("Y"),
        punct(','),
        ident("Z"),
        punct('>'),
    ];
    assert_eq!(split_top_level(tokens, ',').len(), 1);
}
