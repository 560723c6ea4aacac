use vstd::prelude::*;
use crate::ann::Ann;
use crate::api::{parse_string, parse_text_spec};
use crate::error::{Error, ErrorView};
use crate::eval::env::EnvView;
use crate::eval::machine::{Control, ControlView, Frame, FrameView, Machine, MachineView};
use crate::expr::{anns_view, lemma_anns_view, AnnView, Expr, ExprView};
use crate::typecheck::{resolve_terms, resolve_terms_spec};

verus! {

/// The texts of a sequence of source files, one by one.
pub open spec fn texts_view(texts: Seq<String>) -> Seq<Seq<char>> {
    texts.map_values(|t: String| t@)
}

/// Parses and resolves the source texts `texts[i..]`, one after the other.
/// Returns the environment afterwards, and the forms of all the texts, in
/// order, or nothing where a text cannot be parsed or resolved.
pub open spec fn load_forms_spec(texts: Seq<Seq<char>>, i: int, env: EnvView) -> (
    EnvView,
    Option<Seq<AnnView>>,
)
    decreases texts.len() - i,
{
    if i < 0 || i >= texts.len() {
        (env, Some(Seq::empty()))
    } else {
        match parse_text_spec(texts[i]) {
            Err(_) => (env, None),
            Ok(exprs) => {
                let (env1, forms) = resolve_terms_spec(exprs, 0, env);
                match forms {
                    Err(_) => (env1, None),
                    Ok(forms) => {
                        let (env2, rest) = load_forms_spec(texts, i + 1, env1);
                        match rest {
                            None => (env2, None),
                            Some(rest) => (env2, Some(forms + rest)),
                        }
                    },
                }
            },
        }
    }
}

/// The machine after the host has read the module that it waits for.
/// `sources` holds the texts of the module's source files, or nothing where
/// the module cannot be read. The texts are parsed and resolved, and their
/// forms are then evaluated in order; the `use` has the unit value. Where
/// the module cannot be read, parsed or resolved, the `use` fails with
/// `FailedUse`. A machine that does not wait for a module stays as it is.
pub open spec fn load_spec(m: MachineView, sources: Option<Seq<Seq<char>>>) -> MachineView {
    match m.control {
        ControlView::Load { path, range } => match sources {
            None => m.raise(ErrorView::FailedUse, range),
            Some(texts) => {
                let (env, forms) = load_forms_spec(texts, 0, m.env);
                match forms {
                    None => m.with_env(env).raise(ErrorView::FailedUse, range),
                    Some(forms) => m.with_env(env).push(
                        FrameView::Use { forms, next: 0, range },
                    ).plain(ExprView::One),
                }
            },
        },
        _ => m,
    }
}

/// `rest` with the forms `done` in front of what it loaded.
pub open spec fn loaded_onto(done: Seq<AnnView>, rest: (EnvView, Option<Seq<AnnView>>)) -> (
    EnvView,
    Option<Seq<AnnView>>,
) {
    match rest.1 {
        Some(forms) => (rest.0, Some(done + forms)),
        None => (rest.0, None),
    }
}

impl Machine {
    /// Parses and resolves the source texts, one after the other.
    fn load_forms(&mut self, texts: &Vec<String>) -> (forms: Option<Vec<Ann<Expr>>>)
        ensures
            (
                final(self)@.env,
                match forms {
                    Some(forms) => Some(anns_view(forms@)),
                    None => None,
                },
            ) == load_forms_spec(texts_view(texts@), 0, old(self)@.env),
            final(self)@.stack == old(self)@.stack,
            final(self)@.control == old(self)@.control,
    {
        let mut all: Vec<Ann<Expr>> = Vec::new();
        let mut i: usize = 0;
        let ghost sources = texts_view(texts@);
        let ghost origin = self@.env;
        proof {
            lemma_anns_view(all@);
            let whole = load_forms_spec(sources, 0, origin);
            if whole.1 is Some {
                assert(anns_view(all@) + whole.1->Some_0 =~= whole.1->Some_0);
            }
        }
        while i < texts.len()
            invariant
                i <= texts.len(),
                sources == texts_view(texts@),
                origin == old(self)@.env,
                self@.stack == old(self)@.stack,
                self@.control == old(self)@.control,
                load_forms_spec(sources, 0, origin) == loaded_onto(
                    anns_view(all@),
                    load_forms_spec(sources, i as int, self@.env),
                ),
            decreases texts.len() - i,
        {
            assert(sources[i as int] == texts@[i as int]@);
            let exprs = match parse_string(texts[i].as_str()) {
                Ok(exprs) => exprs,
                Err(_) => {
                    return None;
                },
            };
            let mut forms = match resolve_terms(&exprs, 0, &mut self.env) {
                Ok(forms) => forms,
                Err(_) => {
                    return None;
                },
            };
            proof {
                let rest = load_forms_spec(sources, i + 1, self@.env);
                lemma_anns_view(all@);
                lemma_anns_view(forms@);
                if rest.1 is Some {
                    assert(anns_view(all@) + (anns_view(forms@) + rest.1->Some_0) =~= (anns_view(
                        all@,
                    ) + anns_view(forms@)) + rest.1->Some_0);
                }
            }
            let ghost before = anns_view(all@);
            let ghost added = anns_view(forms@);
            all.append(&mut forms);
            proof {
                lemma_anns_view(all@);
                assert(anns_view(all@) =~= before + added);
            }
            i += 1;
        }
        proof {
            assert(anns_view(all@) + Seq::<AnnView>::empty() =~= anns_view(all@));
        }
        Some(all)
    }

    /// Goes on after the host has read the module that the machine waits
    /// for. `sources` holds the texts of the module's source files, or
    /// nothing where the module cannot be read. A machine that does not
    /// wait for a module stays as it is.
    pub fn load(&mut self, sources: Option<Vec<String>>)
        ensures
            final(self)@ == load_spec(
                old(self)@,
                match sources {
                    Some(texts) => Some(texts_view(texts@)),
                    None => None,
                },
            ),
    {
        let range = match &self.control {
            Control::Load { path, range } => *range,
            _ => {
                return ;
            },
        };
        match sources {
            None => self.go_raise(Error::FailedUse, range),
            Some(texts) => match self.load_forms(&texts) {
                None => self.go_raise(Error::FailedUse, range),
                Some(forms) => {
                    self.push_frame(Frame::Use { forms, next: 0, range });
                    self.go_plain(Expr::One);
                },
            },
        }
    }
}

} // verus!
