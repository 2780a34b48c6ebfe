//! Prompt templates: a library of templates by name, and the choice of a template
//! for a model family and task category.
use vstd::prelude::*;
use crate::error::FuseError;
use crate::text::{self, occurs_at};

verus! {

/// Category of a prompt template.
#[derive(Debug, Clone, Copy, PartialEq, Eq, Hash, Structural)]
pub enum TemplateCategory {
    General,
    Code,
    Creative,
    Factual,
}

/// The name a category is written with.
pub open spec fn category_name(c: TemplateCategory) -> Seq<char> {
    match c {
        TemplateCategory::General => "General"@,
        TemplateCategory::Code => "Code"@,
        TemplateCategory::Creative => "Creative"@,
        TemplateCategory::Factual => "Factual"@,
    }
}

/// The message of the error when no template fits a family and a category.
pub open spec fn no_template_message(family: Seq<char>, c: TemplateCategory) -> Seq<char> {
    "No template found for family="@ + family + ", category="@ + category_name(c)
}

impl TemplateCategory {
    /// The variant's name.
    pub fn name(&self) -> (r: &'static str)
        ensures
            r@ == category_name(*self),
    {
        match self {
            TemplateCategory::General => "General",
            TemplateCategory::Code => "Code",
            TemplateCategory::Creative => "Creative",
            TemplateCategory::Factual => "Factual",
        }
    }
}

/// A prompt template with metadata.
#[derive(Debug, Clone)]
pub struct PromptTemplate {
    pub name: String,
    pub template: String,
    pub model_family: String,
    pub category: TemplateCategory,
}

/// Model of a template.
pub struct TemplateModel {
    pub name: Seq<char>,
    pub template: Seq<char>,
    pub model_family: Seq<char>,
    pub category: TemplateCategory,
}

impl View for PromptTemplate {
    type V = TemplateModel;

    open spec fn view(&self) -> TemplateModel {
        TemplateModel {
            name: self.name@,
            template: self.template@,
            model_family: self.model_family@,
            category: self.category,
        }
    }
}

/// `str::replace`: every non-overlapping occurrence of a non-empty `pat`, scanning left
/// to right, replaced by `rep`.
pub open spec fn replace_all(s: Seq<char>, pat: Seq<char>, rep: Seq<char>) -> Seq<char>
    decreases s.len(),
{
    if pat.len() == 0 || s.len() < pat.len() {
        s
    } else if s.subrange(0, pat.len() as int) == pat {
        rep + replace_all(s.skip(pat.len() as int), pat, rep)
    } else {
        seq![s[0]] + replace_all(s.skip(1), pat, rep)
    }
}

/// The placeholder a template's prompt goes in.
pub open spec fn placeholder() -> Seq<char> {
    "{prompt}"@
}

impl PromptTemplate {
    pub fn new(name: &str, template: &str, model_family: &str, category: TemplateCategory) -> (r:
        PromptTemplate)
        ensures
            r@ == (TemplateModel {
                name: name@,
                template: template@,
                model_family: model_family@,
                category,
            }),
    {
        PromptTemplate {
            name: text::owned(name),
            template: text::owned(template),
            model_family: text::owned(model_family),
            category,
        }
    }

    /// Renders the template by substituting `{prompt}` with the given input.
    pub fn render(&self, prompt: &str) -> (r: String)
        ensures
            r@ == replace_all(self.template@, placeholder(), prompt@),
    {
        let s = text::chars_of(self.template.as_str());
        let pat = text::chars_of("{prompt}");
        let rep = text::chars_of(prompt);
        proof {
            reveal_strlit("{prompt}");
        }
        let n = pat.len();
        let mut out: Vec<char> = Vec::new();
        let mut i: usize = 0;
        assert(s@.skip(0) =~= s@);
        while i < s.len()
            invariant
                i <= s@.len(),
                n == pat@.len(),
                n == 8,
                pat@ == placeholder(),
                out@ + replace_all(s@.skip(i as int), pat@, rep@) == replace_all(s@, pat@, rep@),
            decreases s.len() - i,
        {
            let ghost t = s@.skip(i as int);
            if n <= s.len() - i && text::occurs_at_exec(&s, &pat, i) {
                assert(t.subrange(0, n as int) =~= s@.subrange(i as int, i + n));
                assert(t.skip(n as int) =~= s@.skip(i + n));
                let mut k: usize = 0;
                let ghost o = out@;
                while k < rep.len()
                    invariant
                        k <= rep@.len(),
                        out@ == o + rep@.take(k as int),
                    decreases rep.len() - k,
                {
                    out.push(rep[k]);
                    assert(rep@.take(k + 1) =~= rep@.take(k as int).push(rep@[k as int]));
                    k = k + 1;
                }
                assert(rep@.take(rep@.len() as int) =~= rep@);
                assert(o + (rep@ + replace_all(s@.skip(i + n), pat@, rep@)) =~= o + rep@
                    + replace_all(s@.skip(i + n), pat@, rep@));
                i = i + n;
            } else {
                if n <= s.len() - i {
                    assert(t.subrange(0, n as int) =~= s@.subrange(i as int, i + n));
                    assert(!occurs_at(s@, pat@, i as int));
                    assert(t.subrange(0, n as int) != pat@);
                }
                assert(t.skip(1) =~= s@.skip(i + 1));
                let ghost o = out@;
                out.push(s[i]);
                proof {
                    if n > s.len() - i {
                        assert(replace_all(t, pat@, rep@) == t);
                        assert(replace_all(t.skip(1), pat@, rep@) == t.skip(1));
                        assert(t =~= seq![s@[i as int]] + t.skip(1));
                    }
                    assert(o + (seq![s@[i as int]] + replace_all(s@.skip(i + 1), pat@, rep@))
                        =~= o.push(s@[i as int]) + replace_all(s@.skip(i + 1), pat@, rep@));
                }
                i = i + 1;
            }
        }
        assert(s@.skip(s@.len() as int) =~= Seq::<char>::empty());
        assert(out@ + Seq::<char>::empty() =~= out@);
        text::string_from_chars(&out)
    }
}

pub open spec fn template_models(s: Seq<PromptTemplate>) -> Seq<TemplateModel> {
    Seq::new(s.len(), |i: int| s[i]@)
}

/// No two templates share a name.
pub open spec fn unique_names(s: Seq<TemplateModel>) -> bool {
    forall|i: int, j: int| 0 <= i < s.len() && 0 <= j < s.len() && i != j ==> #[trigger] s[i].name
        != #[trigger] s[j].name
}

/// The template with a given name.
pub open spec fn lookup(s: Seq<TemplateModel>, name: Seq<char>) -> Option<TemplateModel> {
    if exists|i: int| 0 <= i < s.len() && #[trigger] s[i].name == name {
        Some(s[choose|i: int| 0 <= i < s.len() && #[trigger] s[i].name == name])
    } else {
        None
    }
}

/// Adding a template: replaces the template of the same name, or appends.
pub open spec fn library_add(s: Seq<TemplateModel>, t: TemplateModel) -> Seq<TemplateModel> {
    if exists|i: int| 0 <= i < s.len() && #[trigger] s[i].name == t.name {
        s.update(choose|i: int| 0 <= i < s.len() && #[trigger] s[i].name == t.name, t)
    } else {
        s.push(t)
    }
}

/// A library that stores and retrieves prompt templates, keyed by name.
#[derive(Debug)]
pub struct PromptLibrary {
    templates: Vec<PromptTemplate>,
}

impl View for PromptLibrary {
    type V = Seq<TemplateModel>;

    closed spec fn view(&self) -> Seq<TemplateModel> {
        template_models(self.templates@)
    }
}

pub open spec fn refs_models(v: Seq<&PromptTemplate>) -> Seq<TemplateModel> {
    Seq::new(v.len(), |i: int| v[i]@)
}

fn not_found(name: &str) -> (e: FuseError)
    ensures
        e matches FuseError::ModelNotFound(m) && m@ == "Template not found: "@ + name@,
{
    FuseError::ModelNotFound(text::concat2("Template not found: ", name))
}

proof fn lemma_unique_index(s: Seq<TemplateModel>, i: int, name: Seq<char>)
    requires
        unique_names(s),
        0 <= i < s.len(),
        s[i].name == name,
    ensures
        lookup(s, name) == Some(s[i]),
        (choose|j: int| 0 <= j < s.len() && #[trigger] s[j].name == name) == i,
{
}

impl PromptLibrary {
    #[verifier::type_invariant]
    spec fn inv(self) -> bool {
        unique_names(template_models(self.templates@))
    }

    /// An empty library.
    pub fn new() -> (r: PromptLibrary)
        ensures
            r@ == Seq::<TemplateModel>::empty(),
    {
        let r = PromptLibrary { templates: Vec::new() };
        assert(template_models(r.templates@) =~= Seq::<TemplateModel>::empty());
        r
    }

    /// Names in the library are unique.
    pub fn names_unique(&self) -> (r: bool)
        ensures
            r,
            unique_names(self@),
    {
        proof {
            use_type_invariant(self);
        }
        true
    }

    /// Index of the template with a given name.
    fn index_of(&self, name: &str) -> (r: Option<usize>)
        ensures
            unique_names(self@),
            match r {
                Some(i) => i < self@.len() && self@[i as int].name == name@ && lookup(self@, name@)
                    == Some(self@[i as int]),
                None => lookup(self@, name@) is None && forall|j: int|
                    0 <= j < self@.len() ==> #[trigger] self@[j].name != name@,
            },
    {
        proof {
            use_type_invariant(self);
        }
        let ghost s = self@;
        let mut i: usize = 0;
        while i < self.templates.len()
            invariant
                i <= self.templates@.len(),
                s == template_models(self.templates@),
                unique_names(s),
                forall|j: int| 0 <= j < i ==> #[trigger] s[j].name != name@,
            decreases self.templates.len() - i,
        {
            if text::str_eq(self.templates[i].name.as_str(), name) {
                proof {
                    lemma_unique_index(s, i as int, name@);
                }
                return Some(i);
            }
            i = i + 1;
        }
        None
    }

    /// Adds a template under its name, replacing a template of the same name. An empty
    /// name is a validation error.
    pub fn add(&mut self, template: PromptTemplate) -> (r: Result<(), FuseError>)
        ensures
            r is Ok <==> template@.name.len() > 0,
            r is Ok ==> final(self)@ == library_add(old(self)@, template@),
            r is Err ==> final(self)@ == old(self)@,
            match r {
                Err(e) => e is ValidationError,
                Ok(_) => true,
            },
    {
        if template.name.as_str().is_empty() {
            return Err(FuseError::ValidationError(text::owned("Template name cannot be empty")));
        }
        let ghost s = self@;
        let ghost t = template@;
        match self.index_of(template.name.as_str()) {
            Some(i) => {
                proof {
                    lemma_unique_index(s, i as int, t.name);
                    let n = s.update(i as int, t);
                    assert forall|a: int, b: int|
                        0 <= a < n.len() && 0 <= b < n.len() && a != b implies #[trigger] n[a].name
                        != #[trigger] n[b].name by {
                        if a != i && b != i {
                            assert(n[a] == s[a] && n[b] == s[b]);
                        } else if a == i {
                            assert(n[b] == s[b]);
                        } else {
                            assert(n[a] == s[a]);
                        }
                    }
                }
                let mut v: Vec<PromptTemplate> = Vec::new();
                std::mem::swap(&mut v, &mut self.templates);
                v.set(i, template);
                assert(template_models(v@) =~= s.update(i as int, t));
                self.templates = v;
            },
            None => {
                proof {
                    let n = s.push(t);
                    assert forall|a: int, b: int|
                        0 <= a < n.len() && 0 <= b < n.len() && a != b implies #[trigger] n[a].name
                        != #[trigger] n[b].name by {
                        if a < s.len() && b < s.len() {
                            assert(n[a] == s[a] && n[b] == s[b]);
                        } else if a == s.len() {
                            assert(n[b] == s[b]);
                        } else {
                            assert(n[a] == s[a]);
                        }
                    }
                }
                let mut v: Vec<PromptTemplate> = Vec::new();
                std::mem::swap(&mut v, &mut self.templates);
                v.push(template);
                assert(template_models(v@) =~= s.push(t));
                self.templates = v;
            },
        }
        Ok(())
    }

    /// The template with a given name; a missing name is a not-found error.
    pub fn get(&self, name: &str) -> (r: Result<&PromptTemplate, FuseError>)
        ensures
            match r {
                Ok(t) => lookup(self@, name@) == Some(t@),
                Err(e) => lookup(self@, name@) is None && e is ModelNotFound,
            },
    {
        match self.index_of(name) {
            Some(i) => Ok(&self.templates[i]),
            None => Err(not_found(name)),
        }
    }

    /// Removes and returns the template with a given name; a missing name is a
    /// not-found error.
    pub fn remove(&mut self, name: &str) -> (r: Result<PromptTemplate, FuseError>)
        ensures
            match r {
                Ok(t) => lookup(old(self)@, name@) == Some(t@) && exists|i: int|
                    0 <= i < old(self)@.len() && old(self)@[i].name == name@ && final(self)@ == old(
                        self,
                    )@.remove(i),
                Err(e) => lookup(old(self)@, name@) is None && e is ModelNotFound && final(self)@
                    == old(self)@,
            },
    {
        let ghost s = self@;
        match self.index_of(name) {
            Some(i) => {
                proof {
                    let n = s.remove(i as int);
                    assert forall|a: int, b: int|
                        0 <= a < n.len() && 0 <= b < n.len() && a != b implies #[trigger] n[a].name
                        != #[trigger] n[b].name by {
                        let x = if a < i { a } else { a + 1 };
                        let y = if b < i { b } else { b + 1 };
                        assert(n[a] == s[x] && n[b] == s[y]);
                    }
                }
                let mut v: Vec<PromptTemplate> = Vec::new();
                std::mem::swap(&mut v, &mut self.templates);
                let t = v.remove(i);
                assert(template_models(v@) =~= s.remove(i as int));
                self.templates = v;
                Ok(t)
            },
            None => Err(not_found(name)),
        }
    }

    /// All templates, in the order they were first added.
    pub fn list(&self) -> (r: Vec<&PromptTemplate>)
        ensures
            refs_models(r@) == self@,
    {
        let mut out: Vec<&PromptTemplate> = Vec::new();
        let mut i: usize = 0;
        while i < self.templates.len()
            invariant
                i <= self.templates@.len(),
                refs_models(out@) == template_models(self.templates@).take(i as int),
            decreases self.templates.len() - i,
        {
            let ghost before = refs_models(out@);
            out.push(&self.templates[i]);
            assert(refs_models(out@) =~= before.push(self.templates@[i as int]@));
            assert(template_models(self.templates@).take(i + 1) =~= template_models(
                self.templates@,
            ).take(i as int).push(self.templates@[i as int]@));
            i = i + 1;
        }
        assert(template_models(self.templates@).take(self.templates@.len() as int)
            =~= template_models(self.templates@));
        out
    }

    /// The templates of a category, in library order.
    pub fn list_by_category(&self, category: &TemplateCategory) -> (r: Vec<&PromptTemplate>)
        ensures
            refs_models(r@) == self@.filter(|t: TemplateModel| t.category == *category),
    {
        let ghost s = self@;
        let ghost f = |t: TemplateModel| t.category == *category;
        let mut out: Vec<&PromptTemplate> = Vec::new();
        let mut i: usize = 0;
        while i < self.templates.len()
            invariant
                i <= self.templates@.len(),
                s == template_models(self.templates@),
                f == (|t: TemplateModel| t.category == *category),
                refs_models(out@) == s.take(i as int).filter(f),
            decreases self.templates.len() - i,
        {
            let ghost before = refs_models(out@);
            assert(s.take(i + 1).drop_last() =~= s.take(i as int));
            if self.templates[i].category == *category {
                out.push(&self.templates[i]);
                assert(refs_models(out@) =~= before.push(s[i as int]));
            }
            proof {
                reveal_with_fuel(Seq::filter, 1);
            }
            i = i + 1;
        }
        assert(s.take(s.len() as int) =~= s);
        out
    }

    /// The templates of a model family, in library order.
    pub fn list_by_model_family(&self, family: &str) -> (r: Vec<&PromptTemplate>)
        ensures
            refs_models(r@) == self@.filter(|t: TemplateModel| t.model_family == family@),
    {
        let ghost s = self@;
        let ghost f = |t: TemplateModel| t.model_family == family@;
        let mut out: Vec<&PromptTemplate> = Vec::new();
        let mut i: usize = 0;
        while i < self.templates.len()
            invariant
                i <= self.templates@.len(),
                s == template_models(self.templates@),
                f == (|t: TemplateModel| t.model_family == family@),
                refs_models(out@) == s.take(i as int).filter(f),
            decreases self.templates.len() - i,
        {
            let ghost before = refs_models(out@);
            assert(s.take(i + 1).drop_last() =~= s.take(i as int));
            if text::str_eq(self.templates[i].model_family.as_str(), family) {
                out.push(&self.templates[i]);
                assert(refs_models(out@) =~= before.push(s[i as int]));
            }
            proof {
                reveal_with_fuel(Seq::filter, 1);
            }
            i = i + 1;
        }
        assert(s.take(s.len() as int) =~= s);
        out
    }

    /// A library pre-populated with the built-in templates.
    pub fn with_builtins() -> (r: PromptLibrary)
        ensures
            r@.len() == 6,
            r@ == builtin_templates(),
    {
        let mut lib = Self::new();
        let builtins: Vec<PromptTemplate> = vec![
            PromptTemplate::new(
                "general",
                "You are a helpful assistant.\n\n{prompt}",
                "generic",
                TemplateCategory::General,
            ),
            PromptTemplate::new(
                "code",
                "You are an expert programmer. Write clean, well-documented code.\n\n{prompt}",
                "generic",
                TemplateCategory::Code,
            ),
            PromptTemplate::new(
                "creative",
                "You are a creative writer. Be imaginative and engaging.\n\n{prompt}",
                "generic",
                TemplateCategory::Creative,
            ),
            PromptTemplate::new(
                "factual",
                "You are a factual assistant. Provide accurate, sourced information.\n\n{prompt}",
                "generic",
                TemplateCategory::Factual,
            ),
            PromptTemplate::new(
                "llama-general",
                "[INST] You are a helpful assistant. {prompt} [/INST]",
                "llama",
                TemplateCategory::General,
            ),
            PromptTemplate::new(
                "llama-code",
                "[INST] You are an expert programmer. {prompt} [/INST]",
                "llama",
                TemplateCategory::Code,
            ),
        ];
        let ghost bs = template_models(builtins@);
        proof {
            reveal_strlit("general");
            reveal_strlit("code");
            reveal_strlit("creative");
            reveal_strlit("factual");
            reveal_strlit("llama-general");
            reveal_strlit("llama-code");
            assert(bs =~= builtin_templates());
            assert forall|a: int, b: int|
                0 <= a < bs.len() && 0 <= b < bs.len() && a != b implies #[trigger] bs[a].name
                != #[trigger] bs[b].name by {
                assert(bs[a].name.len() != bs[b].name.len() || bs[a].name[0] != bs[b].name[0]
                    || bs[a].name[1] != bs[b].name[1] || bs[a].name[6] != bs[b].name[6]);
            }
        }
        let mut i: usize = 0;
        for t in it: builtins
            invariant
                it.seq() == builtins@,
                bs == template_models(builtins@),
                unique_names(bs),
                bs.len() == 6,
                lib@ == bs.take(it.index() as int),
                forall|k: int| 0 <= k < bs.len() ==> #[trigger] bs[k].name.len() > 0,
        {
            let ghost k = it.index();
            assert(t@ == bs[k]);
            proof {
                assert forall|j: int| 0 <= j < lib@.len() implies #[trigger] lib@[j].name != t@.name by {
                    assert(lib@[j] == bs[j]);
                    assert(t@ == bs[k]);
                }
            }
            let _ = lib.add(t);
            assert(lib@ =~= bs.take(k + 1));
        }
        assert(bs.take(6) =~= bs);
        lib
    }
}

/// The built-in templates, in the order they are added.
pub open spec fn builtin_templates() -> Seq<TemplateModel> {
    seq![
        TemplateModel {
            name: "general"@,
            template: "You are a helpful assistant.\n\n{prompt}"@,
            model_family: "generic"@,
            category: TemplateCategory::General,
        },
        TemplateModel {
            name: "code"@,
            template: "You are an expert programmer. Write clean, well-documented code.\n\n{prompt}"@,
            model_family: "generic"@,
            category: TemplateCategory::Code,
        },
        TemplateModel {
            name: "creative"@,
            template: "You are a creative writer. Be imaginative and engaging.\n\n{prompt}"@,
            model_family: "generic"@,
            category: TemplateCategory::Creative,
        },
        TemplateModel {
            name: "factual"@,
            template: "You are a factual assistant. Provide accurate, sourced information.\n\n{prompt}"@,
            model_family: "generic"@,
            category: TemplateCategory::Factual,
        },
        TemplateModel {
            name: "llama-general"@,
            template: "[INST] You are a helpful assistant. {prompt} [/INST]"@,
            model_family: "llama"@,
            category: TemplateCategory::General,
        },
        TemplateModel {
            name: "llama-code"@,
            template: "[INST] You are an expert programmer. {prompt} [/INST]"@,
            model_family: "llama"@,
            category: TemplateCategory::Code,
        },
    ]
}

/// The templates of a family and category, in library order.
pub open spec fn matches_of(s: Seq<TemplateModel>, family: Seq<char>, category: TemplateCategory) -> Seq<TemplateModel> {
    s.filter(|t: TemplateModel| t.model_family == family && t.category == category)
}

/// The template `select` chooses: the first of the family and category, else the
/// first generic one of the category.
pub open spec fn selection(s: Seq<TemplateModel>, family: Seq<char>, category: TemplateCategory) -> Option<TemplateModel> {
    if matches_of(s, family, category).len() > 0 {
        Some(matches_of(s, family, category)[0])
    } else if matches_of(s, "generic"@, category).len() > 0 {
        Some(matches_of(s, "generic"@, category)[0])
    } else {
        None
    }
}

/// Selects the best prompt template for a given model family and category.
#[derive(Debug)]
pub struct PromptOptimizer {
    pub library: PromptLibrary,
}

impl PromptOptimizer {
    pub fn new(library: PromptLibrary) -> (r: PromptOptimizer)
        ensures
            r.library@ == library@,
    {
        PromptOptimizer { library }
    }

    /// The first template of the family and category, in library order.
    fn first_match(&self, family: &str, category: &TemplateCategory) -> (r: Option<&PromptTemplate>)
        ensures
            match r {
                Some(t) => matches_of(self.library@, family@, *category).len() > 0 && t@
                    == matches_of(self.library@, family@, *category)[0],
                None => matches_of(self.library@, family@, *category).len() == 0,
            },
    {
        let fam = self.library.list_by_model_family(family);
        let ghost s = self.library@;
        let ghost ff = |t: TemplateModel| t.model_family == family@;
        let ghost fc = |t: TemplateModel| t.category == *category;
        let ghost fb = |t: TemplateModel| t.model_family == family@ && t.category == *category;
        proof {
            lemma_filter_and(s, ff, fc, fb);
        }
        let ghost fs = refs_models(fam@);
        let mut i: usize = 0;
        while i < fam.len()
            invariant
                i <= fam@.len(),
                fs == refs_models(fam@),
                s == self.library@,
                fc == (|t: TemplateModel| t.category == *category),
                fs.filter(fc) == matches_of(s, family@, *category),
                forall|j: int| 0 <= j < i ==> (#[trigger] fs[j]).category != *category,
            decreases fam.len() - i,
        {
            if fam[i].category == *category {
                proof {
                    lemma_filter_first(fs, fc, i as int);
                }
                return Some(fam[i]);
            }
            i = i + 1;
        }
        proof {
            lemma_filter_none(fs, fc);
        }
        None
    }

    /// Selects the best template for the given model family and category, falling back
    /// to the generic family; when neither has one, a not-found error.
    pub fn select(&self, model_family: &str, category: &TemplateCategory) -> (r: Result<
        &PromptTemplate,
        FuseError,
    >)
        ensures
            match r {
                Ok(t) => selection(self.library@, model_family@, *category) == Some(t@),
                Err(e) => selection(self.library@, model_family@, *category) is None && (e
                    matches FuseError::ModelNotFound(m) && m@ == no_template_message(model_family@, *category)),
            },
    {
        if let Some(t) = self.first_match(model_family, category) {
            return Ok(t);
        }
        proof {
            reveal_strlit("generic");
        }
        match self.first_match("generic", category) {
            Some(t) => Ok(t),
            None => Err(
                FuseError::ModelNotFound(
                    text::concat4(
                        "No template found for family=",
                        model_family,
                        ", category=",
                        category.name(),
                    ),
                ),
            ),
        }
    }

    /// Selects the best template and renders the prompt with it.
    pub fn optimize(&self, prompt: &str, model_family: &str, category: &TemplateCategory) -> (r:
        Result<String, FuseError>)
        ensures
            match r {
                Ok(s) => selection(self.library@, model_family@, *category) matches Some(t) && s@
                    == replace_all(t.template, placeholder(), prompt@),
                Err(e) => selection(self.library@, model_family@, *category) is None && (e
                    matches FuseError::ModelNotFound(m) && m@ == no_template_message(model_family@, *category)),
            },
    {
        match self.select(model_family, category) {
            Ok(template) => Ok(template.render(prompt)),
            Err(e) => Err(e),
        }
    }

    /// The library the optimizer chooses from.
    pub fn library(&self) -> (r: &PromptLibrary)
        ensures
            r@ == self.library@,
    {
        &self.library
    }
}

proof fn lemma_filter_and(
    s: Seq<TemplateModel>,
    f: spec_fn(TemplateModel) -> bool,
    g: spec_fn(TemplateModel) -> bool,
    h: spec_fn(TemplateModel) -> bool,
)
    requires
        forall|t: TemplateModel| #[trigger] h(t) == (f(t) && g(t)),
    ensures
        s.filter(f).filter(g) == s.filter(h),
    decreases s.len(),
{
    reveal_with_fuel(Seq::filter, 1);
    if s.len() > 0 {
        lemma_filter_and(s.drop_last(), f, g, h);
        assert(s.filter(f).filter(g) =~= s.filter(h)) by {
            if f(s.last()) {
                assert(s.filter(f) == s.drop_last().filter(f).push(s.last()));
                assert(s.filter(f).drop_last() =~= s.drop_last().filter(f));
            }
        }
    } else {
        assert(s.filter(f) =~= Seq::<TemplateModel>::empty());
        assert(s.filter(h) =~= Seq::<TemplateModel>::empty());
        assert(s.filter(f).filter(g) =~= Seq::<TemplateModel>::empty());
    }
}

proof fn lemma_filter_first(s: Seq<TemplateModel>, f: spec_fn(TemplateModel) -> bool, i: int)
    requires
        0 <= i < s.len(),
        f(s[i]),
        forall|j: int| 0 <= j < i ==> !f(#[trigger] s[j]),
    ensures
        s.filter(f).len() > 0,
        s.filter(f)[0] == s[i],
    decreases s.len(),
{
    reveal_with_fuel(Seq::filter, 1);
    if i < s.len() - 1 {
        lemma_filter_first(s.drop_last(), f, i);
        assert(s.drop_last()[i] == s[i]);
        if f(s.last()) {
            assert(s.filter(f) == s.drop_last().filter(f).push(s.last()));
        }
    } else {
        lemma_filter_none(s.drop_last(), f);
        assert(s.filter(f) == s.drop_last().filter(f).push(s.last()));
    }
}

proof fn lemma_filter_none(s: Seq<TemplateModel>, f: spec_fn(TemplateModel) -> bool)
    requires
        forall|j: int| 0 <= j < s.len() ==> !f(#[trigger] s[j]),
    ensures
        s.filter(f).len() == 0,
    decreases s.len(),
{
    reveal_with_fuel(Seq::filter, 1);
    if s.len() > 0 {
        lemma_filter_none(s.drop_last(), f);
    }
}

/// After adding a template, looking up its name gives it back.
pub proof fn lemma_add_then_lookup(s: Seq<TemplateModel>, t: TemplateModel)
    requires
        unique_names(s),
    ensures
        lookup(library_add(s, t), t.name) == Some(t),
        unique_names(library_add(s, t)),
{
    let n = library_add(s, t);
    if exists|i: int| 0 <= i < s.len() && #[trigger] s[i].name == t.name {
        let i = choose|i: int| 0 <= i < s.len() && #[trigger] s[i].name == t.name;
        assert(n[i] == t);
        assert forall|a: int, b: int|
            0 <= a < n.len() && 0 <= b < n.len() && a != b implies #[trigger] n[a].name
            != #[trigger] n[b].name by {
            if a != i && b != i {
                assert(n[a] == s[a] && n[b] == s[b]);
            } else if a == i {
                assert(n[b] == s[b]);
            } else {
                assert(n[a] == s[a]);
            }
        }
        lemma_unique_index(n, i, t.name);
    } else {
        let k = s.len() as int;
        assert(n[k] == t);
        assert forall|a: int, b: int|
            0 <= a < n.len() && 0 <= b < n.len() && a != b implies #[trigger] n[a].name
            != #[trigger] n[b].name by {
            if a < k && b < k {
                assert(n[a] == s[a] && n[b] == s[b]);
            } else if a == k {
                assert(n[b] == s[b]);
            } else {
                assert(n[a] == s[a]);
            }
        }
        lemma_unique_index(n, k, t.name);
    }
}

} // verus!
