//! A small generic parse, transform and format pipeline, built up by
//! chaining configuration calls. The steps are arbitrary caller-supplied
//! functions; the contracts relate every answer of the pipeline to the
//! contracts of the supplied steps.

use core::marker::PhantomData;

use vstd::prelude::*;

verus! {

/// A pipeline step that turns text into a parsed value.
pub trait Parser<R> {
    /// When this parser may be called.
    spec fn parse_req(&self, text: String) -> bool;

    /// What this parser may answer.
    spec fn parse_ens(&self, text: String, r: Result<Box<R>, String>) -> bool;

    /// Parses the given text.
    fn parse(&self, text: String) -> (r: Result<Box<R>, String>)
        requires
            self.parse_req(text),
        ensures
            self.parse_ens(text, r),
    ;
}

/// A pipeline step that rewrites a parsed value.
pub trait Transformer<T, U> {
    /// When this transformer may be called.
    spec fn transform_req(&self, ast: &T) -> bool;

    /// What this transformer may answer.
    spec fn transform_ens(&self, ast: &T, r: Result<U, String>) -> bool;

    /// Rewrites the given value.
    fn transform(&self, ast: &T) -> (r: Result<U, String>)
        requires
            self.transform_req(ast),
        ensures
            self.transform_ens(ast, r),
    ;
}

/// A pipeline step that renders a parsed value.
pub trait Formatter<T, R> {
    /// When this formatter may be called.
    spec fn format_req(&self, ast: &T) -> bool;

    /// What this formatter may answer.
    spec fn format_ens(&self, ast: &T, r: Result<R, String>) -> bool;

    /// Renders the given value.
    fn format(&self, ast: &T) -> (r: Result<R, String>)
        requires
            self.format_req(ast),
        ensures
            self.format_ens(ast, r),
    ;
}

/// A parser made of one plain function.
#[verifier::reject_recursive_types(R)]
pub struct P2<F, R> where F: Fn(String) -> Result<Box<R>, String> {
    pub f: F,
}

impl<F, R> Parser<R> for P2<F, R> where F: Fn(String) -> Result<Box<R>, String> {
    open spec fn parse_req(&self, text: String) -> bool {
        call_requires(self.f, (text,))
    }

    open spec fn parse_ens(&self, text: String, r: Result<Box<R>, String>) -> bool {
        call_ensures(self.f, (text,), r)
    }

    fn parse(&self, text: String) -> (r: Result<Box<R>, String>) {
        (self.f)(text)
    }
}

impl<R, T: Parser<R>> Parser<R> for Box<T> {
    open spec fn parse_req(&self, text: String) -> bool {
        (**self).parse_req(text)
    }

    open spec fn parse_ens(&self, text: String, r: Result<Box<R>, String>) -> bool {
        (**self).parse_ens(text, r)
    }

    fn parse(&self, text: String) -> (r: Result<Box<R>, String>) {
        (**self).parse(text)
    }
}

/// A pipeline around one parser producing boxed values.
pub struct ParserProcessor<R, P> where P: Parser<R> {
    pub parser: P,
    pub result: PhantomData<R>,
}

impl<R, P> ParserProcessor<R, P> where P: Parser<R> {
    /// Wraps the given parser.
    pub fn new(f: P) -> (r: ParserProcessor<R, P>)
        ensures
            r.parser == f,
    {
        ParserProcessor { parser: f, result: PhantomData }
    }

    /// Parses the given text with the wrapped parser.
    pub fn parse(&self, text: &str) -> (r: Result<Box<R>, String>)
        requires
            forall|s: String| s@ == text@ ==> self.parser.parse_req(s),
        ensures
            exists|s: String| s@ == text@ && self.parser.parse_ens(s, r),
    {
        let owned = text.to_owned();
        let ghost s = owned;
        let r = self.parser.parse(owned);
        proof {
            assert(s@ == text@ && self.parser.parse_ens(s, r));
        }
        r
    }
}

/// A pipeline without a transformer: parsing and formatting only; the
/// transform step passes the value through as a copy.
pub struct NoneTransformer<T, R, P, F> {
    pub parser: Option<P>,
    pub formatter: Option<F>,
    pub ast: PhantomData<T>,
    pub rendered: PhantomData<R>,
}

impl<T, R, P, F> NoneTransformer<T, R, P, F> {
    /// A pipeline with no steps configured.
    pub fn new() -> (r: Self)
        ensures
            r.parser is None,
            r.formatter is None,
    {
        NoneTransformer { parser: None, formatter: None, ast: PhantomData, rendered: PhantomData }
    }
}

/// A pipeline with a transformer between parsing and formatting.
pub struct WithTransformer<T, R, P, Tr, F> {
    pub parser: Option<P>,
    pub transformer: Option<Tr>,
    pub formatter: Option<F>,
    pub ast: PhantomData<T>,
    pub rendered: PhantomData<R>,
}

impl<T, R, P, Tr, F> WithTransformer<T, R, P, Tr, F> {
    /// A pipeline with no steps configured.
    pub fn new() -> (r: Self)
        ensures
            r.parser is None,
            r.transformer is None,
            r.formatter is None,
    {
        WithTransformer {
            parser: None,
            transformer: None,
            formatter: None,
            ast: PhantomData,
            rendered: PhantomData,
        }
    }
}

/// A parse, transform and format pipeline in one of its two shapes.
pub enum Processor<T, R, P = (), Tr = (), F = ()> {
    NoneTransformer(NoneTransformer<T, R, P, F>),
    WithTransformer(WithTransformer<T, R, P, Tr, F>),
}

impl<T, R, P, Tr, F> Processor<T, R, P, Tr, F> {
    /// The configured parser, in either shape.
    pub open spec fn spec_parser(self) -> Option<P> {
        match self {
            Processor::NoneTransformer(a) => a.parser,
            Processor::WithTransformer(w) => w.parser,
        }
    }

    /// The configured formatter, in either shape.
    pub open spec fn spec_formatter(self) -> Option<F> {
        match self {
            Processor::NoneTransformer(a) => a.formatter,
            Processor::WithTransformer(w) => w.formatter,
        }
    }

    /// The configured transformer, where the pipeline carries one.
    pub open spec fn spec_transformer(self) -> Option<Tr> {
        match self {
            Processor::NoneTransformer(_) => None,
            Processor::WithTransformer(w) => w.transformer,
        }
    }

    /// How the parse step may answer: through the configured parser, or
    /// with an empty error where none is configured.
    pub open spec fn spec_parse_rel(self, text: &str, r: Result<T, String>) -> bool where P: Fn(
        &str,
    ) -> Result<T, String> {
        match self.spec_parser() {
            Some(p) => call_ensures(p, (text,), r),
            None => r matches Err(e) && e@ == Seq::<char>::empty(),
        }
    }

    /// How the transform step may answer: a copy of the value where no
    /// transformer stands, the configured transformer's answer otherwise.
    pub open spec fn spec_transform_rel(self, ast: &T, r: Result<T, String>) -> bool where
        Tr: Fn(&T) -> Result<T, String>,
        T: Clone,
     {
        match self {
            Processor::NoneTransformer(_) => r matches Ok(t) && cloned::<T>(*ast, t),
            Processor::WithTransformer(w) => match w.transformer {
                Some(tr) => call_ensures(tr, (ast,), r),
                None => r matches Err(e) && e@ == Seq::<char>::empty(),
            },
        }
    }

    /// How the format step may answer: through the configured formatter, or
    /// with an empty error where none is configured.
    pub open spec fn spec_format_rel(self, ast: &T, r: Result<R, String>) -> bool where F: Fn(
        &T,
    ) -> Result<R, String> {
        match self.spec_formatter() {
            Some(f) => call_ensures(f, (ast,), r),
            None => r matches Err(e) && e@ == Seq::<char>::empty(),
        }
    }

    /// A pipeline with no steps configured.
    pub fn new() -> (r: Processor<T, R, P, Tr, F>)
        ensures
            r matches Processor::NoneTransformer(a) && a.parser is None && a.formatter is None,
    {
        Processor::NoneTransformer(NoneTransformer::new())
    }

    /// The pipeline with its parse step set to the given function; the
    /// other steps are kept.
    pub fn parser<P2Fn: Fn(&str) -> Result<T, String>>(self, f: P2Fn) -> (r: Processor<
        T,
        R,
        P2Fn,
        Tr,
        F,
    >)
        ensures
            r.spec_parser() == Some(f),
            r.spec_formatter() == self.spec_formatter(),
            r is NoneTransformer <==> self is NoneTransformer,
            (match (self, r) {
                (Processor::WithTransformer(w0), Processor::WithTransformer(w1)) => w1.transformer
                    == w0.transformer,
                _ => true,
            }),
    {
        match self {
            Processor::NoneTransformer(a) => Processor::NoneTransformer(
                NoneTransformer {
                    parser: Some(f),
                    formatter: a.formatter,
                    ast: PhantomData,
                    rendered: PhantomData,
                },
            ),
            Processor::WithTransformer(w) => Processor::WithTransformer(
                WithTransformer {
                    parser: Some(f),
                    transformer: w.transformer,
                    formatter: w.formatter,
                    ast: PhantomData,
                    rendered: PhantomData,
                },
            ),
        }
    }

    /// The pipeline with its format step set to the given function; the
    /// other steps are kept.
    pub fn formatter<F2: Fn(&T) -> Result<R, String>>(self, f: F2) -> (r: Processor<
        T,
        R,
        P,
        Tr,
        F2,
    >)
        ensures
            r.spec_formatter() == Some(f),
            r.spec_parser() == self.spec_parser(),
            r is NoneTransformer <==> self is NoneTransformer,
            (match (self, r) {
                (Processor::WithTransformer(w0), Processor::WithTransformer(w1)) => w1.transformer
                    == w0.transformer,
                _ => true,
            }),
    {
        match self {
            Processor::NoneTransformer(a) => Processor::NoneTransformer(
                NoneTransformer {
                    parser: a.parser,
                    formatter: Some(f),
                    ast: PhantomData,
                    rendered: PhantomData,
                },
            ),
            Processor::WithTransformer(w) => Processor::WithTransformer(
                WithTransformer {
                    parser: w.parser,
                    transformer: w.transformer,
                    formatter: Some(f),
                    ast: PhantomData,
                    rendered: PhantomData,
                },
            ),
        }
    }

    /// The pipeline with a transform step added. Chaining a second
    /// transformer onto a pipeline that already carries one would need
    /// dynamic dispatch, which the verifier refuses, so this step can only
    /// be added once.
    pub fn transformer<Tr2: Fn(&T) -> Result<T, String>>(self, f: Tr2) -> (r: Processor<
        T,
        R,
        P,
        Tr2,
        F,
    >)
        requires
            self is NoneTransformer,
        ensures
            r matches Processor::WithTransformer(w) && w.transformer == Some(f) && w.parser
                == self.spec_parser() && w.formatter == self.spec_formatter(),
    {
        match self {
            Processor::NoneTransformer(a) => Processor::WithTransformer(
                WithTransformer {
                    parser: a.parser,
                    transformer: Some(f),
                    formatter: a.formatter,
                    ast: PhantomData,
                    rendered: PhantomData,
                },
            ),
            Processor::WithTransformer(_) => unreached(),
        }
    }
}

impl<T, R, P, Tr, F> Processor<T, R, P, Tr, F> where P: Fn(&str) -> Result<T, String> {
    /// Runs the parse step on the given text.
    pub fn parse(&self, text: &str) -> (r: Result<T, String>)
        requires
            self.spec_parser() matches Some(p) ==> call_requires(p, (text,)),
        ensures
            self.spec_parse_rel(text, r),
    {
        match self {
            Processor::NoneTransformer(a) => match &a.parser {
                Some(p) => p(text),
                None => Err(String::new()),
            },
            Processor::WithTransformer(w) => match &w.parser {
                Some(p) => p(text),
                None => Err(String::new()),
            },
        }
    }

}

impl<T, R, P, Tr, F> Processor<T, R, P, Tr, F> where
    Tr: Fn(&T) -> Result<T, String>,
    T: Clone,
 {
    /// Runs the transform step on the given value.
    pub fn transform(&self, ast: &T) -> (r: Result<T, String>)
        requires
            self.spec_transformer() matches Some(tr) ==> call_requires(tr, (ast,)),
        ensures
            self.spec_transform_rel(ast, r),
    {
        match self {
            Processor::NoneTransformer(_) => Ok(ast.clone()),
            Processor::WithTransformer(w) => match &w.transformer {
                Some(tr) => tr(ast),
                None => Err(String::new()),
            },
        }
    }

}

impl<T, R, P, Tr, F> Processor<T, R, P, Tr, F> where F: Fn(&T) -> Result<R, String> {
    /// Runs the format step on the given value.
    pub fn format(&self, ast: &T) -> (r: Result<R, String>)
        requires
            self.spec_formatter() matches Some(f) ==> call_requires(f, (ast,)),
        ensures
            self.spec_format_rel(ast, r),
    {
        match self {
            Processor::NoneTransformer(a) => match &a.formatter {
                Some(f) => f(ast),
                None => Err(String::new()),
            },
            Processor::WithTransformer(w) => match &w.formatter {
                Some(f) => f(ast),
                None => Err(String::new()),
            },
        }
    }

}

impl<T, R, P, Tr, F> Processor<T, R, P, Tr, F> where
    P: Fn(&str) -> Result<T, String>,
    Tr: Fn(&T) -> Result<T, String>,
    F: Fn(&T) -> Result<R, String>,
    T: Clone,
 {
    /// Runs the whole pipeline: parse, then transform, then format; the
    /// first failing step answers.
    pub fn process(&self, text: &str) -> (r: Result<R, String>)
        requires
            self.spec_parser() matches Some(p) ==> call_requires(p, (text,)),
            forall|t: T|
                #[trigger] self.spec_parse_rel(text, Ok(t)) ==> (self.spec_transformer() matches
                    Some(tr) ==> call_requires(tr, (&t,))),
            forall|t: T, t2: T|
                self.spec_parse_rel(text, Ok(t)) && self.spec_transform_rel(&t, Ok(t2)) ==> (
                self.spec_formatter() matches Some(f) ==> call_requires(f, (&t2,))),
        ensures
            (r matches Err(e) ==> {
                ||| self.spec_parse_rel(text, Err(e))
                ||| exists|t: T|
                    self.spec_parse_rel(text, Ok(t)) && #[trigger] self.spec_transform_rel(
                        &t,
                        Err(e),
                    )
                ||| exists|t: T, t2: T|
                    self.spec_parse_rel(text, Ok(t)) && #[trigger] self.spec_transform_rel(
                        &t,
                        Ok(t2),
                    ) && #[trigger] self.spec_format_rel(&t2, Err(e))
            }),
            (r matches Ok(out) ==> exists|t: T, t2: T|
                self.spec_parse_rel(text, Ok(t)) && #[trigger] self.spec_transform_rel(&t, Ok(t2))
                    && #[trigger] self.spec_format_rel(&t2, Ok(out))),
    {
        let parsed = match self.parse(text) {
            Ok(t) => t,
            Err(e) => {
                return Err(e);
            },
        };
        let transformed = match self.transform(&parsed) {
            Ok(t) => t,
            Err(e) => {
                return Err(e);
            },
        };
        let out = self.format(&transformed);
        proof {
            assert(self.spec_parse_rel(text, Ok(parsed)));
            assert(self.spec_transform_rel(&parsed, Ok(transformed)));
            assert(self.spec_format_rel(&transformed, out));
            match &out {
                Ok(o) => {
                    assert(self.spec_format_rel(&transformed, Ok(*o)));
                },
                Err(_) => (),
            }
        }
        out
    }
}

} // verus!
