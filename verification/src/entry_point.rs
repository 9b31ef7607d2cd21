//! The source text of the dispatcher's entry point: one module for each
//! handler crate, in the order of the aliases, and a `main` that builds the
//! router over all of them and runs it until the channel to the host ends.

use vstd::prelude::*;
use crate::alias::{alias, alias_text};
use crate::dependency::{DepArg, DepArgView, DepView, Deps, is_numbering};
use crate::escape::stands_for;
use crate::literal::{embeds_safely, lemma_namespace_literal, literal_of, namespace_literal};

verus! {

/// The imports and the type of the writer that every entry point opens
/// with.
pub const OPENING: &'static str = "use std::error::Error;

use tokio::fs::File as TokioFile;

use nvim_router::NeovimHandler;
use nvim_router::Router;
use nvim_router::nvim_rs::{compat::tokio::Compat, create::tokio as create};

type NvimWtr = Compat<TokioFile>;

";

/// `main`, up to the types that the router is built over.
pub const MAIN_OPENING: &'static str = "#[tokio::main]
async fn main() -> Result<(), Box<dyn Error>> {
    let handler = Router::<NvimWtr, (";

/// Between the types and the values that the router is built from.
pub const MAIN_MIDDLE: &'static str = ")>::new((";

/// The rest of `main`: it opens the channel to the host and waits for the
/// event loop, which ends in one of three ways. An error of the loop, a
/// failure to read from the host among them, goes to the host by a
/// notification, and to standard error with each of its causes in turn.
/// A loop that ends without an error needs nothing. An error that says
/// that the channel was closed is the expected end: it is not reported a
/// second time on standard error.
pub const MAIN_CLOSING: &'static str = "));
    let (nvim, io_handler) = create::new_parent(handler).await?;

    match io_handler.await {
        Err(joinerr) => eprintln!(\"Error joining IO loop: '{joinerr}'\"),
        Ok(Err(err)) => {
            nvim.err_writeln(&format!(\"Error: '{err}'\"))
                .await
                .unwrap_or_else(|e| {
                    eprintln!(\"Well, dang... '{e}'\");
                });

            if !err.is_channel_closed() {
                eprintln!(\"Error: '{err}'\");

                let mut source = err.source();

                while let Some(e) = source {
                    eprintln!(\"Caused by: '{e}'\");
                    source = e.source();
                }
            }
        }
        Ok(Ok(())) => {}
    }

    Ok(())
}
";

/// The module of the dependency at position `i`. It hands out the handler
/// type as `H`, and the tag `N` whose namespace is that of the dependency.
pub open spec fn binding_unit(i: nat, args: DepArgView) -> Seq<char> {
    "mod "@ + alias(i) + " {\n    pub use ::"@ + alias(i) + "::"@ + args.handler
        + " as H;\n    #[derive(Clone)]\n    pub struct N;\n    impl nvim_router::Namespace for N {\n        const NS: &str = "@
        + namespace_literal(args.ns) + ";\n    }\n}\n\n"@
}

/// The modules of all dependencies, in the order of their positions.
pub open spec fn binding_units(deps: Seq<DepView>) -> Seq<char>
    decreases deps.len(),
{
    if deps.len() == 0 {
        Seq::empty()
    } else {
        binding_units(deps.drop_last()) + binding_unit((deps.len() - 1) as nat, deps.last().user)
    }
}

/// The pair of tag and handler types of position `i`.
pub open spec fn pair_type(i: nat) -> Seq<char> {
    "(crate::"@ + alias(i) + "::N, crate::"@ + alias(i) + "::H)"@
}

/// The pair of tag and new handler of position `i`.
pub open spec fn pair_value(i: nat) -> Seq<char> {
    "(crate::"@ + alias(i) + "::N, <crate::"@ + alias(i)
        + "::H as NeovimHandler<NvimWtr>>::new())"@
}

/// The pair types of the first `n` positions, with a comma between two.
pub open spec fn pair_types(n: nat) -> Seq<char>
    decreases n,
{
    if n == 0 {
        Seq::empty()
    } else if n == 1 {
        pair_type(0)
    } else {
        pair_types((n - 1) as nat) + ", "@ + pair_type((n - 1) as nat)
    }
}

/// The pair values of the first `n` positions, with a comma between two.
pub open spec fn pair_values(n: nat) -> Seq<char>
    decreases n,
{
    if n == 0 {
        Seq::empty()
    } else if n == 1 {
        pair_value(0)
    } else {
        pair_values((n - 1) as nat) + ", "@ + pair_value((n - 1) as nat)
    }
}

/// The whole entry point for a dependency set.
pub open spec fn entry_point_text(deps: Seq<DepView>) -> Seq<char> {
    OPENING@ + binding_units(deps) + MAIN_OPENING@ + pair_types(deps.len()) + MAIN_MIDDLE@
        + pair_values(deps.len()) + MAIN_CLOSING@
}

/// The namespace of every dependency stands in its module as a literal
/// that embeds safely and stands for that namespace.
pub proof fn lemma_namespaces_are_embedded(deps: Seq<DepView>, i: int)
    requires
        0 <= i < deps.len(),
    ensures
        embeds_safely(namespace_literal(deps[i].user.ns)),
        stands_for(namespace_literal(deps[i].user.ns), deps[i].user.ns),
{
    lemma_namespace_literal(deps[i].user.ns);
}

fn unit_text(i: usize, args: &DepArg) -> (text: String)
    ensures
        text@ == binding_unit(i as nat, args@),
{
    let name = alias_text(i);
    let mut text = String::from_str("mod ");
    text.append(name.as_str());
    text.append(" {\n    pub use ::");
    text.append(name.as_str());
    text.append("::");
    text.append(args.handler.as_str());
    text.append(
        " as H;\n    #[derive(Clone)]\n    pub struct N;\n    impl nvim_router::Namespace for N {\n        const NS: &str = ",
    );
    text.append(literal_of(args.ns.as_str()).as_str());
    text.append(";\n    }\n}\n\n");
    text
}

fn pair_type_text(i: usize) -> (text: String)
    ensures
        text@ == pair_type(i as nat),
{
    let name = alias_text(i);
    let mut text = String::from_str("(crate::");
    text.append(name.as_str());
    text.append("::N, crate::");
    text.append(name.as_str());
    text.append("::H)");
    text
}

fn pair_value_text(i: usize) -> (text: String)
    ensures
        text@ == pair_value(i as nat),
{
    let name = alias_text(i);
    let mut text = String::from_str("(crate::");
    text.append(name.as_str());
    text.append("::N, <crate::");
    text.append(name.as_str());
    text.append("::H as NeovimHandler<NvimWtr>>::new())");
    text
}

fn pair_types_text(n: usize) -> (text: String)
    ensures
        text@ == pair_types(n as nat),
{
    let mut text = String::new();
    let mut i: usize = 0;
    while i < n
        invariant
            i <= n,
            text@ == pair_types(i as nat),
        decreases n - i,
    {
        if i > 0 {
            text.append(", ");
        }
        text.append(pair_type_text(i).as_str());
        i += 1;
    }
    text
}

fn pair_values_text(n: usize) -> (text: String)
    ensures
        text@ == pair_values(n as nat),
{
    let mut text = String::new();
    let mut i: usize = 0;
    while i < n
        invariant
            i <= n,
            text@ == pair_values(i as nat),
        decreases n - i,
    {
        if i > 0 {
            text.append(", ");
        }
        text.append(pair_value_text(i).as_str());
        i += 1;
    }
    text
}

impl Deps {
    /// The entry point of the dispatcher for this set.
    pub fn bin_main_rs(&self) -> (text: String)
        ensures
            text@ == entry_point_text(self@),
    {
        let mut units = String::new();
        let entries = self.iter();
        let mut k: usize = 0;
        assert(self@.take(0) =~= Seq::<DepView>::empty());
        while k < entries.len()
            invariant
                k <= entries@.len(),
                is_numbering(entries@, self.0@),
                units@ == binding_units(self@.take(k as int)),
            decreases entries@.len() - k,
        {
            let (i, args, _) = entries[k];
            units.append(unit_text(i, args).as_str());
            proof {
                let next = self@.take(k as int + 1);
                assert(next.drop_last() =~= self@.take(k as int));
                assert(next.last() == self.0@[k as int]@);
            }
            k += 1;
        }
        assert(self@.take(k as int) =~= self@);
        let mut text = String::from_str(OPENING);
        text.append(units.as_str());
        text.append(MAIN_OPENING);
        text.append(pair_types_text(self.0.len()).as_str());
        text.append(MAIN_MIDDLE);
        text.append(pair_values_text(self.0.len()).as_str());
        text.append(MAIN_CLOSING);
        text
    }
}

} // verus!
