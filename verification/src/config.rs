//! The configuration: a list of upstream backends, each with its keys and the
//! models that it serves.

use crate::text;
use crate::text::{copy_all, is_blank, same_texts};
use vstd::prelude::*;

pub use crate::resolver::{ResolvedBackend, ResolvedKey, Resolver};

verus! {

/// One upstream backend.
#[derive(Debug)]
pub struct Backend {
    /// A name for people to read.
    pub name: String,
    /// The root address of the OpenAI-compatible API.
    pub base_url: String,
    /// The API keys, in the order in which they are tried.
    pub keys: Vec<String>,
    /// The models that this backend serves.
    pub models: Vec<String>,
}

/// What a [`Backend`] holds.
#[verifier::ext_equal]
pub struct BackendView {
    pub name: Seq<char>,
    pub base_url: Seq<char>,
    pub keys: Seq<Seq<char>>,
    pub models: Seq<Seq<char>>,
}

/// The whole configuration.
#[derive(Debug)]
pub struct Config {
    /// The upstream backends, in the order in which they are tried.
    pub backends: Vec<Backend>,
}

impl View for Backend {
    type V = BackendView;

    open spec fn view(&self) -> BackendView {
        BackendView {
            name: self.name@,
            base_url: self.base_url@,
            keys: text::views(self.keys@),
            models: text::views(self.models@),
        }
    }
}

impl View for Config {
    type V = Seq<BackendView>;

    open spec fn view(&self) -> Seq<BackendView> {
        self.backends@.map_values(|b: Backend| b@)
    }
}

/// A backend with every field empty.
pub open spec fn empty_backend() -> BackendView {
    BackendView {
        name: Seq::empty(),
        base_url: Seq::empty(),
        keys: Seq::empty(),
        models: Seq::empty(),
    }
}

impl Clone for Backend {
    fn clone(&self) -> (r: Self)
        ensures
            r@ == self@,
    {
        Backend {
            name: self.name.clone(),
            base_url: self.base_url.clone(),
            keys: copy_all(&self.keys),
            models: copy_all(&self.models),
        }
    }
}

impl Backend {
    /// A backend with every field empty.
    pub fn empty() -> (r: Self)
        ensures
            r@ == empty_backend(),
    {
        let r = Backend {
            name: String::new(),
            base_url: String::new(),
            keys: Vec::new(),
            models: Vec::new(),
        };
        assert(r@ =~= empty_backend());
        r
    }
}

/// Whether the two backends agree in every field.
pub fn backend_eq(a: &Backend, b: &Backend) -> (r: bool)
    ensures
        r == (a@ == b@),
{
    a.name == b.name && a.base_url == b.base_url && same_texts(&a.keys, &b.keys) && same_texts(
        &a.models,
        &b.models,
    )
}

impl Clone for Config {
    fn clone(&self) -> (r: Self)
        ensures
            r@ == self@,
    {
        let mut backends: Vec<Backend> = Vec::new();
        let mut i: usize = 0;
        while i < self.backends.len()
            invariant
                i <= self.backends@.len(),
                backends@.len() == i,
                forall|j: int| 0 <= j < i ==> (#[trigger] backends@[j])@ == self.backends@[j]@,
            decreases self.backends@.len() - i,
        {
            backends.push(self.backends[i].clone());
            i += 1;
        }
        let r = Config { backends };
        assert(r@ =~= self@);
        r
    }
}

impl Default for Config {
    fn default() -> (r: Self)
        ensures
            r@ == Seq::<BackendView>::empty(),
    {
        let r = Config { backends: Vec::new() };
        assert(r@ =~= Seq::<BackendView>::empty());
        r
    }
}

/// What the contents of the settings file call for.
pub enum Loaded {
    /// The configuration is already known.
    Ready(Config),
    /// The text holds a document to parse.
    Parse,
}

/// The backend that a new settings file is seeded with.
pub open spec fn sample_backend() -> BackendView {
    BackendView {
        name: "硅流"@,
        base_url: "https://api.siliconflow.cn"@,
        keys: seq!["sk-your-api-key"@],
        models: seq!["Qwen/Qwen3-32B"@, "deepseek-ai/DeepSeek-V3"@],
    }
}

impl Config {
    /// Decides what the settings file says. A missing file (`None`) and a blank
    /// one both stand for the empty configuration.
    pub fn load(raw: Option<&str>) -> (r: Loaded)
        ensures
            match r {
                Loaded::Ready(config) => {
                    &&& config@ == Seq::<BackendView>::empty()
                    &&& raw is None || text::blank(raw->0@)
                },
                Loaded::Parse => raw is Some && !text::blank(raw->0@),
            },
    {
        match raw {
            None => Loaded::Ready(Config::default()),
            Some(text) => if is_blank(text) {
                Loaded::Ready(Config::default())
            } else {
                Loaded::Parse
            },
        }
    }

    /// A configuration with one sample backend, to start a settings file with.
    pub fn sample() -> (r: Self)
        ensures
            r@ == seq![sample_backend()],
    {
        let backend = Backend {
            name: "硅流".to_owned(),
            base_url: "https://api.siliconflow.cn".to_owned(),
            keys: vec!["sk-your-api-key".to_owned()],
            models: vec!["Qwen/Qwen3-32B".to_owned(), "deepseek-ai/DeepSeek-V3".to_owned()],
        };
        assert(backend@ =~= sample_backend());
        let r = Config { backends: vec![backend] };
        assert(r@ =~= seq![sample_backend()]);
        r
    }
}

} // verus!
