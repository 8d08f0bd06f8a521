//! Turning a binding's identifier into a name that is safe to attach.

use crate::ast::{Ident, IdentView};
use swc_ecma_ast::EsReserved;
use vstd::prelude::*;
use vstd::string::StringExecFns;

verus! {

/// The words that only the third edition of the language reserves.
pub open spec fn reserved_in_es3(sym: Seq<char>) -> bool {
    ||| sym == "abstract"@
    ||| sym == "boolean"@
    ||| sym == "byte"@
    ||| sym == "char"@
    ||| sym == "double"@
    ||| sym == "final"@
    ||| sym == "float"@
    ||| sym == "goto"@
    ||| sym == "int"@
    ||| sym == "long"@
    ||| sym == "native"@
    ||| sym == "short"@
    ||| sym == "synchronized"@
    ||| sym == "throws"@
    ||| sym == "transient"@
    ||| sym == "volatile"@
}

/// Calls `EsReserved::is_reserved_in_es3` of `swc_ecma_ast` on a `String`.
///
/// Trusted: that method looks the text up in the crate's table of the sixteen
/// words listed in [`reserved_in_es3`], and answers whether it is one of them.
#[verifier::external_body]
fn is_reserved_in_es3(sym: &String) -> (reserved: bool)
    ensures
        reserved == reserved_in_es3(sym@),
{
    sym.is_reserved_in_es3()
}

/// Whether a function or class must not be given `sym` as it stands.
pub open spec fn needs_fresh_name(sym: Seq<char>) -> bool {
    reserved_in_es3(sym) || sym == "await"@ || sym == "eval"@
}

/// The identifier that [`prepare`] returns.
pub open spec fn spec_prepare(i: IdentView, force: bool) -> IdentView {
    if needs_fresh_name(i.sym) {
        IdentView { sym: seq!['_'] + i.sym, span: i.span, private: true }
    } else if force {
        IdentView { sym: i.sym, span: i.span, private: true }
    } else {
        i
    }
}

/// Makes a new private identifier if required.
///
/// A reserved word, `await` and `eval` become a private identifier whose text
/// is its own text behind an underscore. Any other identifier comes back
/// unchanged, or as a private copy when `force` is set.
pub fn prepare(i: Ident, force: bool) -> (out: Ident)
    ensures
        out@ == spec_prepare(i@, force),
{
    if is_reserved_in_es3(&i.sym) || i.sym == String::from_str("await") || i.sym
        == String::from_str("eval") {
        proof {
            reveal_strlit("_");
        }
        let sym = String::from_str("_").concat(i.sym.as_str());
        assert(sym@ =~= seq!['_'] + i.sym@);
        return Ident { sym, span: i.span, private: true };
    }
    if force {
        Ident { sym: i.sym, span: i.span, private: true }
    } else {
        i
    }
}

/// No word that needs a fresh name begins with an underscore.
proof fn lemma_fresh_names_are_free(sym: Seq<char>)
    requires
        sym.len() > 0,
        sym[0] == '_',
    ensures
        !needs_fresh_name(sym),
{
    reveal_strlit("abstract");
    reveal_strlit("boolean");
    reveal_strlit("byte");
    reveal_strlit("char");
    reveal_strlit("double");
    reveal_strlit("final");
    reveal_strlit("float");
    reveal_strlit("goto");
    reveal_strlit("int");
    reveal_strlit("long");
    reveal_strlit("native");
    reveal_strlit("short");
    reveal_strlit("synchronized");
    reveal_strlit("throws");
    reveal_strlit("transient");
    reveal_strlit("volatile");
    reveal_strlit("await");
    reveal_strlit("eval");
}

/// What [`prepare`] returns can be attached as it stands: it is never a
/// reserved word, `await` or `eval`.
pub proof fn lemma_prepared_name_is_free(i: IdentView, force: bool)
    ensures
        !needs_fresh_name(spec_prepare(i, force).sym),
{
    if needs_fresh_name(i.sym) {
        lemma_fresh_names_are_free(seq!['_'] + i.sym);
    }
}

} // verus!
