//! The whole build: module text in, script text out.
use vstd::prelude::*;
use crate::emit::{render_script, script_of};
use crate::error::{BuildError, ErrV};
use crate::registry::{collect, registry_of};
use crate::text::texts;
use crate::tokens::{Tok, lexed, tokenize, toks_view};

verus! {

/// The script for the module with top-level tokens `toks`, or the error
/// that stops the build.
pub open spec fn pipeline_of(
    toks: Seq<Tok>,
    builtins: Seq<Seq<char>>,
    template: Seq<char>,
    package: Seq<char>,
) -> Result<Seq<char>, ErrV> {
    match registry_of(toks, builtins) {
        Err(e) => Err(e),
        Ok(reg) => script_of(reg, template, package),
    }
}

/// Builds the script for a module given as its top-level tokens.
pub fn build_tokens(toks: &Vec<Tok>, builtins: &Vec<String>, template: &str, package: &str) -> (r: Result<String, BuildError>)
    ensures
        match r {
            Ok(t) => pipeline_of(toks@, texts(builtins@), template@, package@) == Ok::<Seq<char>, ErrV>(t@),
            Err(e) => pipeline_of(toks@, texts(builtins@), template@, package@) == Err::<Seq<char>, ErrV>(e@),
        },
{
    match collect(toks, builtins) {
        Ok(reg) => render_script(&reg, template, package),
        Err(e) => Err(e),
    }
}

/// Builds the script for the module whose source text is `source`, with
/// the built-in input slot tokens `builtins`, the template text, and the
/// name of the package that holds the implementation functions. Fails with
/// `Lex` exactly where the text does not lex as Rust; otherwise the result
/// is that of [`build_tokens`] on the tokens that the text lexes to.
pub fn build(source: &str, builtins: &Vec<String>, template: &str, package: &str) -> (r: Result<String, BuildError>)
    ensures
        match r {
            Ok(t) => lexed(source@) is Some && exists|toks: Seq<Tok>|
                toks_view(toks) == lexed(source@)->Some_0 && pipeline_of(
                    toks,
                    texts(builtins@),
                    template@,
                    package@,
                ) == Ok::<Seq<char>, ErrV>(t@),
            Err(e) => if lexed(source@) is None {
                e@ == ErrV::Lex
            } else {
                exists|toks: Seq<Tok>|
                    toks_view(toks) == lexed(source@)->Some_0 && pipeline_of(
                        toks,
                        texts(builtins@),
                        template@,
                        package@,
                    ) == Err::<Seq<char>, ErrV>(e@)
            },
        },
{
    match tokenize(source) {
        Some(toks) => build_tokens(&toks, builtins, template, package),
        None => Err(BuildError::Lex),
    }
}

/// Two builds of the same module with the same built-ins, template and
/// package give the same script, byte for byte, or the same error.
pub proof fn lemma_build_deterministic(
    toks: Seq<Tok>,
    builtins: Seq<Seq<char>>,
    template: Seq<char>,
    package: Seq<char>,
    first: Result<Seq<char>, ErrV>,
    second: Result<Seq<char>, ErrV>,
)
    requires
        first == pipeline_of(toks, builtins, template, package),
        second == pipeline_of(toks, builtins, template, package),
    ensures
        first == second,
{
}

} // verus!
