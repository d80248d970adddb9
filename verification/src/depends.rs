//! The `#[derive(Depends)]` expansion: dependency-backed construction for a
//! simple braced struct.
//!
//! Fields marked `#[dep]` are resolved from the dependency system, fields
//! marked `#[arg]` are taken from the caller of `from_deps`, and all other
//! fields start from `Default::default()`.
use crate::client::group_stream;
use crate::tokens::{
    first_ident, first_punct, is_attribute, is_punct_char, last_ident_before, last_ident_text, lists_view,
    matches_attribute, matches_dep_attribute, position_of_ident, position_of_punct, split_pieces,
    split_top_level, stream_text, stream_to_string, text_result, Delimiter,
    Spacing, TokenTree,
};
use crate::text::{contains_text, lemma_contains_middle};
use vstd::prelude::*;

verus! {

/// A struct field encountered by `Depends`.
pub struct Field {
    /// The field identifier.
    pub name: String,
    /// The field type as source text.
    pub ty: String,
    /// Whether the field carries `#[dep]`.
    pub injected: bool,
    /// Whether the field carries `#[arg]` (and not `#[dep]`).
    pub argument: bool,
}

/// A field as plain values.
pub struct FieldModel {
    pub name: Seq<char>,
    pub ty: Seq<char>,
    pub injected: bool,
    pub argument: bool,
}

impl View for Field {
    type V = FieldModel;

    open spec fn view(&self) -> FieldModel {
        FieldModel {
            name: self.name@,
            ty: self.ty@,
            injected: self.injected,
            argument: self.argument,
        }
    }
}

/// Some token up to and including `end` starts the attribute `#[name]`.
pub open spec fn has_attribute_upto(tokens: Seq<TokenTree>, end: int, name: Seq<char>) -> bool {
    exists|i: int| 0 <= i <= end && #[trigger] is_attribute(tokens, i, name)
}

/// What parsing one struct field gives: the field, or the complaint.
pub open spec fn field_result(tokens: Seq<TokenTree>) -> Result<FieldModel, Seq<char>> {
    match first_punct(tokens, ':', 0) {
        None => Err("expected a named struct field"@),
        Some(colon) => match last_ident_before(tokens, colon) {
            None => Err("expected a field name"@),
            Some(name) => if tokens.skip(colon + 1).len() == 0 {
                Err("expected a field type"@)
            } else {
                let injected = has_attribute_upto(tokens, colon, "dep"@);
                Ok(
                    FieldModel {
                        name,
                        ty: stream_text(tokens.skip(colon + 1)),
                        injected,
                        argument: !injected && has_attribute_upto(tokens, colon, "arg"@),
                    },
                )
            },
        },
    }
}

/// The fields of the pieces, in order, or the complaint about the first
/// piece that is not a field.
pub open spec fn fields_result(pieces: Seq<Seq<TokenTree>>) -> Result<Seq<FieldModel>, Seq<char>>
    decreases pieces.len(),
{
    if pieces.len() == 0 {
        Ok(Seq::empty())
    } else {
        match fields_result(pieces.drop_last()) {
            Err(message) => Err(message),
            Ok(fields) => match field_result(pieces.last()) {
                Err(message) => Err(message),
                Ok(field) => Ok(fields.push(field)),
            },
        }
    }
}

/// Once a prefix of the pieces fails to parse, the whole list fails with the
/// same complaint.
pub proof fn lemma_fields_error_persists(pieces: Seq<Seq<TokenTree>>, n: int, message: Seq<char>)
    requires
        0 <= n <= pieces.len(),
        fields_result(pieces.take(n)) == Err::<Seq<FieldModel>, _>(message),
    ensures
        fields_result(pieces) == Err::<Seq<FieldModel>, _>(message),
    decreases pieces.len() - n,
{
    if n < pieces.len() {
        assert(pieces.take(n + 1).drop_last() =~= pieces.take(n));
        lemma_fields_error_persists(pieces, n + 1, message);
    } else {
        assert(pieces.take(n) =~= pieces);
    }
}

/// The fields by their views.
pub open spec fn fields_view(fields: Seq<Field>) -> Seq<FieldModel> {
    fields.map_values(|f: Field| f@)
}

/// The initializer of one field in the constructed value.
pub open spec fn initializer_text(field: FieldModel) -> Seq<char> {
    if field.injected {
        field.name + ": ::dep::get::<"@ + field.ty + ">()"@
    } else if field.argument {
        field.name
    } else {
        field.name + ": ::core::default::Default::default()"@
    }
}

/// The initializers of all fields, comma separated.
pub open spec fn initializers_text(fields: Seq<FieldModel>) -> Seq<char>
    decreases fields.len(),
{
    if fields.len() == 0 {
        Seq::empty()
    } else if fields.len() == 1 {
        initializer_text(fields[0])
    } else {
        initializers_text(fields.drop_last()) + ", "@ + initializer_text(fields.last())
    }
}

/// The `from_deps` parameters: one `name: Type` per `#[arg]` field, in
/// declaration order.
pub open spec fn parameters_text(fields: Seq<FieldModel>) -> Seq<char>
    decreases fields.len(),
{
    if fields.len() == 0 {
        Seq::empty()
    } else {
        let before = parameters_text(fields.drop_last());
        let field = fields.last();
        if !field.argument {
            before
        } else if before.len() == 0 {
            field.name + ": "@ + field.ty
        } else {
            before + ", "@ + field.name + ": "@ + field.ty
        }
    }
}

/// Some field is an `#[arg]` field.
pub open spec fn has_arguments(fields: Seq<FieldModel>) -> bool {
    exists|i: int| 0 <= i < fields.len() && #[trigger] fields[i].argument
}

/// The source text `Depends` derives for struct `name` with `fields`.
pub open spec fn struct_text(name: Seq<char>, fields: Seq<FieldModel>) -> Seq<char> {
    if has_arguments(fields) {
        "impl "@ + name
            + " {\n            #[doc = \"Constructs `Self` by resolving every `#[dep]` field from the dependency system, taking every `#[arg]` field from the caller and initializing all other fields with `Default::default()`.\"]\n            pub fn from_deps("@
            + parameters_text(fields) + ") -> Self {\n                Self { "@ + initializers_text(
            fields,
        ) + " }\n            }\n        }"@
    } else {
        "impl ::core::default::Default for "@ + name
            + " {\n            fn default() -> Self {\n                Self { "@ + initializers_text(
            fields,
        )
            + " }\n            }\n        }\n\n        impl "@ + name
            + " {\n            #[doc = \"Constructs `Self` by resolving every `#[dep]` field from the dependency system and initializing all other fields with `Default::default()`.\"]\n            pub fn from_deps() -> Self {\n                ::core::default::Default::default()\n            }\n        }"@
    }
}

/// What expanding the tokens after `struct` gives.
pub open spec fn struct_result(tokens: Seq<TokenTree>) -> Result<Seq<char>, Seq<char>> {
    if tokens.len() == 0 {
        Err("expected a struct name"@)
    } else {
        match tokens[0] {
            TokenTree::Ident(name) => if tokens.len() < 2 {
                Err("expected a braced struct body"@)
            } else {
                match group_stream(tokens, 1, Delimiter::Brace) {
                    None => Err("Depends does not support generics or where clauses yet"@),
                    Some(body) => match fields_result(split_pieces(body, ',')) {
                        Err(message) => Err(message),
                        Ok(fields) => Ok(struct_text(name@, fields)),
                    },
                }
            },
            _ => Err("expected a struct name"@),
        }
    }
}

/// What `#[derive(Depends)]` gives for its input tokens.
pub open spec fn depends_result(tokens: Seq<TokenTree>) -> Result<Seq<char>, Seq<char>> {
    match first_ident(tokens, "struct"@, 0) {
        None => Err("Depends can only be derived for structs"@),
        Some(index) => struct_result(tokens.skip(index + 1)),
    }
}

/// Parses one struct field and detects the `#[dep]` and `#[arg]` marker
/// attributes.
pub fn parse_field(tokens: &[TokenTree]) -> (result: Result<Field, String>)
    ensures
        match result {
            Ok(field) => field_result(tokens@) == Ok::<_, Seq<char>>(field@),
            Err(message) => field_result(tokens@) == Err::<FieldModel, _>(message@),
        },
{
    let n = tokens.len();
    let colon_index = match position_of_punct(tokens, ':') {
        Some(index) => index,
        None => {
            return Err(String::from_str("expected a named struct field"));
        },
    };
    let mut injected = false;
    let mut marked_arg = false;
    let mut index: usize = 0;
    while index <= colon_index
        invariant
            colon_index < tokens@.len(),
            tokens@.len() == n,
            index <= colon_index + 1,
            injected == exists|i: int| 0 <= i < index && #[trigger] is_attribute(tokens@, i, "dep"@),
            marked_arg == exists|i: int|
                0 <= i < index && #[trigger] is_attribute(tokens@, i, "arg"@),
        decreases colon_index + 1 - index,
    {
        if matches_dep_attribute(tokens, index) {
            injected = true;
        }
        if matches_attribute(tokens, index, "arg") {
            marked_arg = true;
        }
        index = index + 1;
    }
    let name = match last_ident_text(tokens, colon_index) {
        Some(name) => name,
        None => {
            return Err(String::from_str("expected a field name"));
        },
    };
    let ty_tokens = &tokens[colon_index + 1..n];
    assert(tokens@.subrange(colon_index + 1, n as int) =~= tokens@.skip(colon_index + 1));
    if ty_tokens.len() == 0 {
        return Err(String::from_str("expected a field type"));
    }
    let ty = stream_to_string(ty_tokens);
    Ok(Field { name, ty, injected, argument: !injected && marked_arg })
}

/// The fields by their views, when parsing succeeded.
pub open spec fn parsed_fields_view(result: Result<Vec<Field>, String>) -> Result<
    Seq<FieldModel>,
    Seq<char>,
> {
    match result {
        Ok(fields) => Ok(fields_view(fields@)),
        Err(message) => Err(message@),
    }
}

/// Parses a comma-separated field list from a braced struct body.
pub fn parse_fields(stream: Vec<TokenTree>) -> (result: Result<Vec<Field>, String>)
    ensures
        parsed_fields_view(result) == fields_result(split_pieces(stream@, ',')),
{
    let ghost all = stream@;
    let pieces = split_top_level(stream, ',');
    let ghost ps = split_pieces(all, ',');
    let mut fields: Vec<Field> = Vec::new();
    assert(fields_view(fields@) =~= Seq::<FieldModel>::empty());
    assert(ps.take(0) =~= Seq::<Seq<TokenTree>>::empty());
    let mut i: usize = 0;
    while i < pieces.len()
        invariant
            i <= pieces@.len(),
            lists_view(pieces@) == ps,
            ps == split_pieces(stream@, ','),
            fields_result(ps.take(i as int)) == Ok::<_, Seq<char>>(fields_view(fields@)),
        decreases pieces@.len() - i,
    {
        proof {
            assert(ps.take(i + 1).drop_last() =~= ps.take(i as int));
            assert(ps.take(i + 1).last() == pieces@[i as int]@);
        }
        match parse_field(pieces[i].as_slice()) {
            Ok(field) => {
                let ghost before = fields@;
                fields.push(field);
                assert(fields_view(fields@) =~= fields_view(before).push(field@));
            },
            Err(message) => {
                proof {
                    lemma_fields_error_persists(ps, i + 1, message@);
                }
                return Err(message);
            },
        }
        i = i + 1;
    }
    assert(ps.take(ps.len() as int) =~= ps);
    Ok(fields)
}

/// Expands a struct declaration (the tokens after `struct`) into its
/// dependency-backed constructors.
pub fn expand_struct(tokens: Vec<TokenTree>) -> (result: Result<String, String>)
    ensures
        text_result(result) == struct_result(tokens@),
{
    let mut tokens = tokens;
    if tokens.len() == 0 {
        return Err(String::from_str("expected a struct name"));
    }
    let name = match &tokens[0] {
        TokenTree::Ident(name) => name.clone(),
        _ => {
            return Err(String::from_str("expected a struct name"));
        },
    };
    if tokens.len() < 2 {
        return Err(String::from_str("expected a braced struct body"));
    }
    let group = tokens.remove(1);
    let body = match group {
        TokenTree::Group(Delimiter::Brace, stream, _) => stream,
        _ => {
            return Err(String::from_str("Depends does not support generics or where clauses yet"));
        },
    };
    let fields = match parse_fields(body) {
        Ok(fields) => fields,
        Err(message) => {
            return Err(message);
        },
    };
    let ghost fs = fields_view(fields@);
    let mut initializers = String::new();
    let mut parameters = String::new();
    let mut any_argument = false;
    let mut i: usize = 0;
    while i < fields.len()
        invariant
            i <= fields@.len(),
            fs == fields_view(fields@),
            initializers@ == initializers_text(fs.take(i as int)),
            parameters@ == parameters_text(fs.take(i as int)),
            any_argument == has_arguments(fs.take(i as int)),
        decreases fields@.len() - i,
    {
        proof {
            assert(fs.take(i + 1).drop_last() =~= fs.take(i as int));
            assert(fs.take(i + 1).last() == fields@[i as int]@);
        }
        let field = &fields[i];
        if i > 0 {
            initializers.append(", ");
        }
        initializers.append(field.name.as_str());
        if field.injected {
            initializers.append(": ::dep::get::<");
            initializers.append(field.ty.as_str());
            initializers.append(">()");
        } else if field.argument {
        } else {
            initializers.append(": ::core::default::Default::default()");
        }
        if field.argument {
            if parameters.as_str().is_empty() {
            } else {
                parameters.append(", ");
            }
            parameters.append(field.name.as_str());
            parameters.append(": ");
            parameters.append(field.ty.as_str());
            any_argument = true;
        }
        proof {
            let prefix = fs.take(i + 1);
            if field.argument {
                assert(prefix[i as int].argument);
            } else {
                assert(has_arguments(prefix) == has_arguments(fs.take(i as int))) by {
                    if has_arguments(prefix) {
                        let k = choose|k: int| 0 <= k < prefix.len() && #[trigger] prefix[k].argument;
                        assert(fs.take(i as int)[k].argument);
                    }
                    if has_arguments(fs.take(i as int)) {
                        let k = choose|k: int|
                            0 <= k < fs.take(i as int).len() && #[trigger] fs.take(
                                i as int,
                            )[k].argument;
                        assert(prefix[k].argument);
                    }
                }
            }
        }
        i = i + 1;
    }
    assert(fs.take(fs.len() as int) =~= fs);
    let mut output;
    if any_argument {
        output = String::from_str("impl ");
        output.append(name.as_str());
        output.append(
            " {\n            #[doc = \"Constructs `Self` by resolving every `#[dep]` field from the dependency system, taking every `#[arg]` field from the caller and initializing all other fields with `Default::default()`.\"]\n            pub fn from_deps(",
        );
        output.append(parameters.as_str());
        output.append(") -> Self {\n                Self { ");
        output.append(initializers.as_str());
        output.append(" }\n            }\n        }");
    } else {
        output = String::from_str("impl ::core::default::Default for ");
        output.append(name.as_str());
        output.append(" {\n            fn default() -> Self {\n                Self { ");
        output.append(initializers.as_str());
        output.append(" }\n            }\n        }\n\n        impl ");
        output.append(name.as_str());
        output.append(
            " {\n            #[doc = \"Constructs `Self` by resolving every `#[dep]` field from the dependency system and initializing all other fields with `Default::default()`.\"]\n            pub fn from_deps() -> Self {\n                ::core::default::Default::default()\n            }\n        }",
        );
    }
    Ok(output)
}

/// Expands the input of `#[derive(Depends)]`: the declaration must be a
/// struct.
pub fn derive_depends_impl(tokens: Vec<TokenTree>) -> (result: Result<String, String>)
    ensures
        text_result(result) == depends_result(tokens@),
{
    let mut tokens = tokens;
    let len = tokens.len();
    match position_of_ident(tokens.as_slice(), "struct") {
        Some(index) => {
            assert(index < len);
            let rest = tokens.split_off(index + 1);
            expand_struct(rest)
        },
        None => Err(String::from_str("Depends can only be derived for structs")),
    }
}

/// In the constructed value every field gets its own initializer, in field
/// order, separated by commas: the initializers of `a` followed by those of
/// `b` are those of `a + b`.
pub proof fn lemma_initializers_follow_fields(a: Seq<FieldModel>, b: Seq<FieldModel>)
    requires
        a.len() > 0,
        b.len() > 0,
    ensures
        initializers_text(a + b) == initializers_text(a) + ", "@ + initializers_text(b),
    decreases b.len(),
{
    assert((a + b).drop_last() =~= a + b.drop_last());
    assert((a + b).last() == b.last());
    if b.len() == 1 {
        assert(a + b.drop_last() =~= a);
    } else {
        lemma_initializers_follow_fields(a, b.drop_last());
    }
}

/// A `#[dep]` field is resolved with `::dep::get::<Type>()`, an `#[arg]`
/// field is taken from the parameter of the same name, and any other field
/// starts from `Default::default()`.
pub proof fn lemma_initializer_of_each_kind_of_field(field: FieldModel)
    ensures
        field.injected ==> initializers_text(seq![field]) == field.name + ": ::dep::get::<"@
            + field.ty + ">()"@,
        !field.injected && field.argument ==> initializers_text(seq![field]) == field.name,
        !field.injected && !field.argument ==> initializers_text(seq![field]) == field.name
            + ": ::core::default::Default::default()"@,
{
}

/// Parsed fields follow the comma-separated pieces one for one, in
/// declaration order: the list parses exactly when every piece does, and
/// then its `i`-th field is what the `i`-th piece parses to.
pub proof fn lemma_fields_in_declaration_order(pieces: Seq<Seq<TokenTree>>)
    ensures
        fields_result(pieces) is Ok <==> forall|i: int|
            0 <= i < pieces.len() ==> #[trigger] field_result(pieces[i]) is Ok,
        fields_result(pieces) matches Ok(fields) ==> fields.len() == pieces.len() && forall|i: int|
            0 <= i < pieces.len() ==> #[trigger] field_result(pieces[i]) == Ok::<_, Seq<char>>(
                fields[i],
            ),
    decreases pieces.len(),
{
    if pieces.len() > 0 {
        let init = pieces.drop_last();
        lemma_fields_in_declaration_order(init);
        assert forall|i: int| 0 <= i < init.len() implies init[i] == pieces[i] by {}
        assert(pieces.last() == pieces[pieces.len() - 1]);
    }
}

/// A field's type text is the stream layout of every token after the first
/// `:`, so joined punctuation such as the `::` of a path stays together.
pub proof fn lemma_field_type_is_stream_layout(tokens: Seq<TokenTree>)
    ensures
        field_result(tokens) matches Ok(field) ==> first_punct(tokens, ':', 0) matches Some(colon)
            && field.ty == stream_text(tokens.skip(colon + 1)),
{
}

/// Where the type of a field is `first` followed by `rest`, and `first`
/// ends with a joined punctuation character, the type text is the text of
/// `first` directly followed by that of `rest`; otherwise a single space
/// stands between them.
pub proof fn lemma_field_type_keeps_joined_punctuation(
    tokens: Seq<TokenTree>,
    first: Seq<TokenTree>,
    rest: Seq<TokenTree>,
)
    requires
        first.len() > 0,
        rest.len() > 0,
        first_punct(tokens, ':', 0) matches Some(colon) && tokens.skip(colon + 1) == first + rest,
    ensures
        field_result(tokens) matches Ok(field) ==> field.ty == stream_text(first) + (if first.last() matches TokenTree::Punct(_, Spacing::Joint) {
            Seq::<char>::empty()
        } else {
            seq![' ']
        }) + stream_text(rest),
{
    crate::tokens::lemma_stream_text_concat(first, rest);
}

/// A field is `name: Type`, read around its first `:`, with its markers
/// before that `:`. It parses exactly when an identifier stands before the
/// `:` and some token after it; the name is the last identifier before the
/// `:`, the type is the stream layout of every token after it, the field is
/// injected exactly when `#[dep]` stands before the `:`, and it is an
/// argument exactly when `#[arg]` does and `#[dep]` does not.
pub proof fn lemma_field_is_markers_name_colon_type(tokens: Seq<TokenTree>, colon: int)
    requires
        0 <= colon < tokens.len(),
        is_punct_char(tokens[colon], ':'),
        forall|i: int| 0 <= i < colon ==> !#[trigger] is_punct_char(tokens[i], ':'),
    ensures
        field_result(tokens) is Ok <==> (exists|j: int| 0 <= j < colon && #[trigger] tokens[j] is Ident)
            && colon + 1 < tokens.len(),
        field_result(tokens) matches Ok(field) ==> {
            &&& Some(field.name) == last_ident_before(tokens, colon)
            &&& field.ty == stream_text(tokens.skip(colon + 1))
            &&& field.injected == exists|i: int|
                0 <= i <= colon && #[trigger] is_attribute(tokens, i, "dep"@)
            &&& field.argument == (!field.injected && exists|i: int|
                0 <= i <= colon && #[trigger] is_attribute(tokens, i, "arg"@))
        },
{
    crate::tokens::lemma_first_punct_is_first(tokens, ':', 0);
    crate::tokens::lemma_last_ident_before_is_last(tokens, colon);
}

/// The `from_deps` parameters list the `#[arg]` fields in field order, as
/// `name: Type`, separated by commas; other fields contribute nothing.
pub proof fn lemma_parameters_follow_argument_fields(a: Seq<FieldModel>, b: Seq<FieldModel>)
    ensures
        parameters_text(a + b) == parameters_text(a) + (if parameters_text(a).len() > 0
            && parameters_text(b).len() > 0 {
            ", "@
        } else {
            Seq::<char>::empty()
        }) + parameters_text(b),
    decreases b.len(),
{
    if b.len() == 0 {
        assert(a + b =~= a);
    } else {
        let ab = a + b;
        assert(ab.drop_last() =~= a + b.drop_last());
        assert(ab.last() == b.last());
        lemma_parameters_follow_argument_fields(a, b.drop_last());
        let pa = parameters_text(a);
        let pb0 = parameters_text(b.drop_last());
        let f = b.last();
        if f.argument {
            let decl = f.name + ": "@ + f.ty;
            assert(decl.len() > 0) by {
                reveal_strlit(": ");
            }
            if pa.len() > 0 && pb0.len() > 0 {
                assert(pa + ", "@ + pb0 + ", "@ + decl =~= pa + ", "@ + (pb0 + ", "@ + decl));
            } else if pa.len() > 0 {
                assert(parameters_text(b) == decl);
                assert(pa + Seq::<char>::empty() + pb0 =~= pa);
            } else {
                assert(Seq::<char>::empty() + Seq::<char>::empty() + pb0 =~= pb0);
                assert(pa =~= Seq::<char>::empty());
                assert(pa + Seq::<char>::empty() + parameters_text(b) =~= parameters_text(b));
            }
        }
    }
}

/// One field's parameter: `name: Type` for an `#[arg]` field, nothing
/// otherwise.
pub proof fn lemma_parameter_of_one_field(field: FieldModel)
    ensures
        parameters_text(seq![field]) == if field.argument {
            field.name + ": "@ + field.ty
        } else {
            Seq::<char>::empty()
        },
{
    assert(seq![field].drop_last() =~= Seq::<FieldModel>::empty());
    assert(parameters_text(Seq::<FieldModel>::empty()) == Seq::<char>::empty());
}

/// With `#[arg]` fields, the expansion is an inherent `from_deps` that takes
/// the `#[arg]` fields as parameters and builds `Self` from the initializers
/// of all fields.
#[verifier::rlimit(60)]
pub proof fn lemma_struct_from_deps_with_arguments(name: Seq<char>, fields: Seq<FieldModel>)
    requires
        has_arguments(fields),
    ensures
        contains_text(
            struct_text(name, fields),
            parameters_text(fields) + ") -> Self {\n                Self { "@ + initializers_text(fields)
                + " }\n            }\n        }"@,
        ),
{
    let text = struct_text(name, fields);
    let part = parameters_text(fields) + ") -> Self {\n                Self { "@ + initializers_text(
        fields,
    ) + " }\n            }\n        }"@;
    let before = "impl "@ + name
        + " {\n            #[doc = \"Constructs `Self` by resolving every `#[dep]` field from the dependency system, taking every `#[arg]` field from the caller and initializing all other fields with `Default::default()`.\"]\n            pub fn from_deps("@;
    assert(text =~= before + part + Seq::<char>::empty());
    lemma_contains_middle(before, part, Seq::empty());
}

/// Without `#[arg]` fields, the expansion is a `Default` impl that builds
/// `Self` from the initializers of all fields.
#[verifier::rlimit(60)]
pub proof fn lemma_struct_default_without_arguments(name: Seq<char>, fields: Seq<FieldModel>)
    requires
        !has_arguments(fields),
    ensures
        contains_text(
            struct_text(name, fields),
            "impl ::core::default::Default for "@ + name
                + " {\n            fn default() -> Self {\n                Self { "@ + initializers_text(
                fields,
            ) + " }\n            }\n        }\n\n        impl "@,
        ),
{
    let text = struct_text(name, fields);
    let part = "impl ::core::default::Default for "@ + name
        + " {\n            fn default() -> Self {\n                Self { "@ + initializers_text(fields)
        + " }\n            }\n        }\n\n        impl "@;
    let after = name
        + " {\n            #[doc = \"Constructs `Self` by resolving every `#[dep]` field from the dependency system and initializing all other fields with `Default::default()`.\"]\n            pub fn from_deps() -> Self {\n                ::core::default::Default::default()\n            }\n        }"@;
    assert(text =~= Seq::<char>::empty() + part + after);
    lemma_contains_middle(Seq::empty(), part, after);
}

} // verus!
