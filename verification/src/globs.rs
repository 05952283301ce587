//! The glob-compilation and matching primitive, supplied by the `globset`
//! crate. The library treats it as a capability: a wildcard expression is
//! compiled into a matchable value, many compiled expressions form one set,
//! and the set reports, for a candidate path, which expressions match it.
//! Everything this module states about `globset` is trusted, checked against
//! that crate's source rather than proved. Every glob this library builds
//! goes through `glob_new`, with the same fixed options (the path separator
//! kept literal), so compiling and matching are pure functions of the
//! pattern text and the path text.

use vstd::prelude::*;

verus! {

#[verifier::external_type_specification]
#[verifier::external_body]
pub struct ExGlob(globset::Glob);

#[verifier::external_type_specification]
#[verifier::external_body]
pub struct ExGlobSet(globset::GlobSet);

#[verifier::external_type_specification]
#[verifier::external_body]
pub struct ExGlobSetBuilder(globset::GlobSetBuilder);

#[verifier::external_type_specification]
#[verifier::external_body]
pub struct ExGlobError(globset::Error);

/// The pattern text a compiled glob was built from.
pub uninterp spec fn glob_pattern(g: globset::Glob) -> Seq<char>;

/// Whether `globset` accepts this pattern text as well-formed wildcard
/// syntax (with `*` kept within one path segment). Compilation is a pure
/// function of the pattern text, so acceptance is too.
pub uninterp spec fn glob_syntax_ok(pat: Seq<char>) -> bool;

/// The pattern texts of the globs added to a set builder so far, in order.
pub uninterp spec fn builder_patterns(b: globset::GlobSetBuilder) -> Seq<Seq<char>>;

/// Whether the combined matcher can be built from these pattern texts.
pub uninterp spec fn glob_set_buildable(pats: Seq<Seq<char>>) -> bool;

/// The pattern texts a combined matcher was built from, in order.
pub uninterp spec fn glob_set_patterns(s: globset::GlobSet) -> Seq<Seq<char>>;

/// Whether a pattern, compiled with `*` kept within one path segment,
/// matches a candidate path. Matching a compiled glob is a pure function of
/// the pattern text it was built from and of the path text.
pub uninterp spec fn glob_matches(pat: Seq<char>, path: Seq<char>) -> bool;

/// Relies on `globset::GlobBuilder`: `new(pat).literal_separator(true).build()`
/// compiles exactly the given pattern text, succeeds precisely when the text
/// is well-formed glob syntax, and makes `*` stop at path separators.
#[verifier::external_body]
pub(crate) fn glob_new(pat: &str) -> (r: Result<globset::Glob, globset::Error>)
    ensures
        r is Ok <==> glob_syntax_ok(pat@),
        r matches Ok(g) ==> glob_pattern(g) == pat@,
{
    globset::GlobBuilder::new(pat).literal_separator(true).build()
}

/// Relies on `globset::GlobSetBuilder::new`: the new builder holds no globs.
#[verifier::external_body]
pub(crate) fn glob_set_builder_new() -> (r: globset::GlobSetBuilder)
    ensures
        builder_patterns(r) == Seq::<Seq<char>>::empty(),
{
    globset::GlobSetBuilder::new()
}

/// Relies on `globset::GlobSetBuilder::add`: the glob is appended after the
/// ones already added.
#[verifier::external_body]
pub(crate) fn glob_set_builder_add(b: &mut globset::GlobSetBuilder, g: globset::Glob)
    ensures
        builder_patterns(*final(b)) == builder_patterns(*old(b)).push(glob_pattern(g)),
{
    b.add(g);
}

/// Relies on `globset::GlobSetBuilder::build`: the combined matcher is built
/// from the added globs in order, and building is a pure function of their
/// pattern texts.
#[verifier::external_body]
pub(crate) fn glob_set_build(b: &globset::GlobSetBuilder) -> (r: Result<
    globset::GlobSet,
    globset::Error,
>)
    ensures
        r is Ok <==> glob_set_buildable(builder_patterns(*b)),
        r matches Ok(s) ==> glob_set_patterns(s) == builder_patterns(*b),
{
    b.build()
}

/// Relies on `globset::GlobSet::matches`: the returned sequence numbers are
/// exactly the indices of the globs that match the given path — every
/// reported index is in range and matches, and every matching index is
/// reported.
#[verifier::external_body]
pub(crate) fn glob_set_matches(s: &globset::GlobSet, path: &str) -> (r: Vec<usize>)
    ensures
        forall|k: int|
            0 <= k < r@.len() ==> (r@[k] as int) < glob_set_patterns(*s).len() && glob_matches(
                glob_set_patterns(*s)[r@[k] as int],
                path@,
            ),
        forall|j: int|
            0 <= j < glob_set_patterns(*s).len() && glob_matches(glob_set_patterns(*s)[j], path@)
                ==> r@.contains(j as usize),
{
    s.matches(path)
}

} // verus!
