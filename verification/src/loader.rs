//! Loading from sources: the context first, then the catalog. Sources are
//! taken in order, and what a later source says replaces what an earlier one
//! said under the same key.

use vstd::prelude::*;
use crate::advancements::load_advancement;
use crate::advancements::loaded_advancement;
use crate::advancements::Advancement;
use crate::advancements::AdvancementView;
use crate::archive::advancement_id;
use crate::archive::category_matches;
use crate::archive::extract_advancement_id;
use crate::archive::select_files;
use crate::archive::selected_files;
use crate::archive::Archive;
use crate::archive::FileCategory;
use crate::context::lang_loaded;
use crate::context::load_language_file;
use crate::context::load_recipe_file;
use crate::context::load_tag_from_content;
use crate::context::recipe_loaded;
use crate::context::tag_loaded;
use crate::context::ContextView;
use crate::context::LoadingContext;
use crate::error::LoadError;
use crate::json::json_of_text;
use crate::requirements::criteria::init_debug;
use crate::requirements::criteria::AdvancementDebugInfo;
use crate::requirements::criteria::DebugMap;
use crate::strmap::StrMap;
use crate::text::views;
use crate::text::str_eq;

verus! {

/// A file of a source: where it sits and what it holds.
#[derive(Debug, Clone, PartialEq)]
pub struct SourceFile {
    pub path: String,
    pub content: String,
}

/// A source held in memory: its label and its files in order.
#[derive(Debug, Clone, PartialEq)]
pub struct Source {
    pub name: String,
    pub files: Vec<SourceFile>,
}

/// Path and content of a file.
pub type FileView = (Seq<char>, Seq<char>);

/// The paths and contents of a list of files.
pub open spec fn files_view(files: Seq<SourceFile>) -> Seq<FileView> {
    Seq::new(files.len(), |i: int| (files[i].path@, files[i].content@))
}

/// The files of each of a list of sources.
pub open spec fn sources_view(sources: Seq<Source>) -> Seq<Seq<FileView>> {
    Seq::new(sources.len(), |i: int| files_view(sources[i].files@))
}

impl Source {
    pub fn new(name: String) -> (r: Self)
        ensures
            r.name@ == name@,
            r.files@.len() == 0,
    {
        Source { name, files: Vec::new() }
    }

    /// Adds a file at the end.
    pub fn add_file(&mut self, path: String, content: String)
        ensures
            final(self).name == old(self).name,
            files_view(final(self).files@) == files_view(old(self).files@).push(
                (path@, content@),
            ),
    {
        self.files.push(SourceFile { path, content });
        assert(files_view(self.files@) =~= files_view(old(self).files@).push((path@, content@)));
    }

    /// The paths of the files, in order.
    pub fn paths(&self) -> (r: Vec<String>)
        ensures
            r@.len() == self.files@.len(),
            forall|i: int| 0 <= i < r@.len() ==> r@[i]@ == self.files@[i].path@,
    {
        let mut out: Vec<String> = Vec::new();
        let mut i: usize = 0;
        while i < self.files.len()
            invariant
                i <= self.files@.len(),
                out@.len() == i,
                forall|k: int| 0 <= k < i ==> out@[k]@ == self.files@[k].path@,
            decreases self.files@.len() - i,
        {
            out.push(self.files[i].path.clone());
            i += 1;
        }
        out
    }

    /// The content of the first file at `path`.
    pub fn content_of(&self, path: &str) -> (r: Option<&str>)
        ensures
            match r {
                Some(c) => exists|i: int|
                    0 <= i < self.files@.len() && self.files@[i].path@ == path@
                        && self.files@[i].content@ == c@,
                None => forall|i: int| 0 <= i < self.files@.len() ==> self.files@[i].path@ != path@,
            },
    {
        let mut i: usize = 0;
        while i < self.files.len()
            invariant
                i <= self.files@.len(),
                forall|k: int| 0 <= k < i ==> self.files@[k].path@ != path@,
            decreases self.files@.len() - i,
        {
            if str_eq(self.files[i].path.as_str(), path) {
                return Some(self.files[i].content.as_str());
            }
            i += 1;
        }
        None
    }
}

/// The paths of a list of files.
pub open spec fn paths_view(files: Seq<SourceFile>) -> Seq<Seq<char>> {
    Seq::new(files.len(), |i: int| files[i].path@)
}

impl Archive for Source {
    /// The paths of the files that belong to one of `categories`, with
    /// forward slashes, in order.
    fn list_files(&mut self, categories: &[FileCategory]) -> (r: Result<Vec<String>, LoadError>)
        ensures
            *final(self) == *old(self),
            r matches Ok(found) && views(found@) == selected_files(
                paths_view(old(self).files@),
                old(self).files@.len() as nat,
                categories@,
            ),
    {
        let paths = self.paths();
        assert(views(paths@) =~= paths_view(self.files@));
        Ok(select_files(&paths, categories))
    }

    /// The content of the first file at `path`; a fault where there is
    /// none.
    fn read_file(&mut self, path: &str) -> (r: Result<String, LoadError>)
        ensures
            *final(self) == *old(self),
            match r {
                Ok(c) => exists|i: int|
                    0 <= i < old(self).files@.len() && old(self).files@[i].path@ == path@ && old(
                        self,
                    ).files@[i].content@ == c@,
                Err(e) => e == LoadError::Archive && forall|i: int|
                    0 <= i < old(self).files@.len() ==> old(self).files@[i].path@ != path@,
            },
    {
        match self.content_of(path) {
            Some(c) => Ok(c.to_owned()),
            None => Err(LoadError::Archive),
        }
    }

    fn name(&self) -> (r: String)
        ensures
            r@ == self.name@,
    {
        self.name.clone()
    }
}

/// The catalog: each advancement under its identifier.
pub type CatalogModel = Map<Seq<char>, AdvancementView>;

/// The catalog entry that a file gives: one where the file is an
/// advancement file and can be loaded.
pub open spec fn file_entry(file: FileView, ctx: ContextView) -> Option<AdvancementView> {
    if category_matches(FileCategory::Advancement, file.0) {
        loaded_advancement(json_of_text(file.1), advancement_id(file.0), ctx)
    } else {
        None
    }
}

/// The catalog `m` after the first `n` files of a source.
pub open spec fn catalog_after_files(
    m: CatalogModel,
    files: Seq<FileView>,
    n: nat,
    ctx: ContextView,
) -> CatalogModel
    decreases n,
{
    if n == 0 || n > files.len() {
        m
    } else {
        let prev = catalog_after_files(m, files, (n - 1) as nat, ctx);
        match file_entry(files[n - 1], ctx) {
            Some(a) => prev.insert(advancement_id(files[n - 1].0), a),
            None => prev,
        }
    }
}

/// What one source alone puts into the catalog.
pub open spec fn source_catalog(files: Seq<FileView>, ctx: ContextView) -> CatalogModel {
    catalog_after_files(Map::empty(), files, files.len(), ctx)
}

/// The catalog after the first `k` sources.
pub open spec fn catalog_after_sources(
    sources: Seq<Seq<FileView>>,
    k: nat,
    ctx: ContextView,
) -> CatalogModel
    decreases k,
{
    if k == 0 || k > sources.len() {
        Map::empty()
    } else {
        catalog_after_files(
            catalog_after_sources(sources, (k - 1) as nat, ctx),
            sources[k - 1],
            sources[k - 1].len(),
            ctx,
        )
    }
}

/// Loading the files of a source into a catalog lays that source's own
/// catalog over it.
pub proof fn lemma_catalog_after_files(
    m: CatalogModel,
    files: Seq<FileView>,
    n: nat,
    ctx: ContextView,
)
    ensures
        catalog_after_files(m, files, n, ctx) == m.union_prefer_right(
            catalog_after_files(Map::empty(), files, n, ctx),
        ),
    decreases n,
{
    let own = catalog_after_files(Map::empty(), files, n, ctx);
    if n == 0 || n > files.len() {
        assert(m =~= m.union_prefer_right(own));
    } else {
        lemma_catalog_after_files(m, files, (n - 1) as nat, ctx);
        let prev_own = catalog_after_files(Map::empty(), files, (n - 1) as nat, ctx);
        match file_entry(files[n - 1], ctx) {
            Some(a) => {
                let id = advancement_id(files[n - 1].0);
                assert(m.union_prefer_right(prev_own).insert(id, a) =~= m.union_prefer_right(
                    prev_own.insert(id, a),
                ));
            },
            None => {},
        }
    }
}

/// The override law. Take any sequence of sources and any advancement key.
/// If source `i` has an entry for the key and no later source has one, the
/// catalog's entry for the key is the one that source `i` produces.
pub proof fn lemma_last_source_wins(
    sources: Seq<Seq<FileView>>,
    ctx: ContextView,
    key: Seq<char>,
    i: int,
)
    requires
        0 <= i < sources.len(),
        source_catalog(sources[i], ctx).dom().contains(key),
        forall|j: int| i < j < sources.len() ==> !source_catalog(sources[j], ctx).dom().contains(key),
    ensures
        catalog_after_sources(sources, sources.len(), ctx).dom().contains(key),
        catalog_after_sources(sources, sources.len(), ctx)[key] == source_catalog(
            sources[i],
            ctx,
        )[key],
{
    lemma_last_source_wins_upto(sources, sources.len(), ctx, key, i);
}

/// The override law for the first `k` sources.
pub proof fn lemma_last_source_wins_upto(
    sources: Seq<Seq<FileView>>,
    k: nat,
    ctx: ContextView,
    key: Seq<char>,
    i: int,
)
    requires
        0 <= i < k <= sources.len(),
        source_catalog(sources[i], ctx).dom().contains(key),
        forall|j: int| i < j < k ==> !source_catalog(sources[j], ctx).dom().contains(key),
    ensures
        catalog_after_sources(sources, k, ctx).dom().contains(key),
        catalog_after_sources(sources, k, ctx)[key] == source_catalog(sources[i], ctx)[key],
    decreases k,
{
    let before = catalog_after_sources(sources, (k - 1) as nat, ctx);
    lemma_catalog_after_files(before, sources[k - 1], sources[k - 1].len(), ctx);
    if i < k - 1 {
        lemma_last_source_wins_upto(sources, (k - 1) as nat, ctx, key, i);
    }
}

/// The advancements of a catalog are well formed.
pub open spec fn catalog_wf(catalog: StrMap<Advancement>) -> bool {
    catalog.wf() && forall|i: int|
        0 <= i < catalog.values@.len() ==> (#[trigger] catalog.values@[i]).wf()
}

/// Loads the advancement files among `files` into the catalog, in order. A
/// file that cannot be loaded is passed over.
pub fn load_source_files(
    catalog: &mut StrMap<Advancement>,
    files: &Vec<SourceFile>,
    context: &LoadingContext,
    debug: &mut DebugMap,
)
    requires
        catalog_wf(*old(catalog)),
        context.wf(),
        old(debug).wf(),
    ensures
        catalog_wf(*final(catalog)),
        final(debug).wf(),
        final(catalog).model() == catalog_after_files(
            old(catalog).model(),
            files_view(files@),
            files@.len() as nat,
            context@,
        ),
{
    let ghost fvs = files_view(files@);
    let mut i: usize = 0;
    while i < files.len()
        invariant
            i <= files@.len(),
            catalog_wf(*catalog),
            context.wf(),
            debug.wf(),
            fvs == files_view(files@),
            catalog.model() == catalog_after_files(old(catalog).model(), fvs, i as nat, context@),
        decreases files@.len() - i,
    {
        let path = files[i].path.as_str();
        assert(fvs[i as int] == (files@[i as int].path@, files@[i as int].content@));
        if FileCategory::Advancement.matches(path) {
            let id = extract_advancement_id(path);
            match load_advancement(files[i].content.as_str(), id.as_str(), context, debug) {
                Ok(advancement) => {
                    let ghost before = *catalog;
                    catalog.insert(id, advancement);
                    proof {
                        StrMap::lemma_model_insert(before, *catalog, id@, advancement);
                        lemma_values_wf(before, *catalog, id@, advancement);
                    }
                },
                Err(_) => {},
            }
        }
        i += 1;
    }
}

/// Inserting a well-formed advancement keeps a catalog well formed.
pub proof fn lemma_values_wf(
    before: StrMap<Advancement>,
    after: StrMap<Advancement>,
    key: Seq<char>,
    value: Advancement,
)
    requires
        catalog_wf(before),
        after.wf(),
        value.wf(),
        after@ == before@.insert(key, value),
    ensures
        catalog_wf(after),
{
    assert forall|i: int| 0 <= i < after.values@.len() implies (#[trigger] after.values@[i]).wf() by {
        after.lemma_position(i);
        let k = after.keys@[i]@;
        assert(after@.dom().contains(k));
        assert(after@[k] == after.values@[i]);
        if k != key {
            assert(before@.dom().contains(k));
            let j = before.position(k);
            before.lemma_position(j);
            assert(before@[k] == before.values@[j]);
        }
    }
}

/// Loads the catalog from sources held in memory, in order.
pub fn load_catalog(sources: &Vec<Source>, context: &LoadingContext, debug: &mut DebugMap) -> (r:
    StrMap<Advancement>)
    requires
        context.wf(),
        old(debug).wf(),
    ensures
        catalog_wf(r),
        final(debug).wf(),
        r.model() == catalog_after_sources(
            sources_view(sources@),
            sources@.len() as nat,
            context@,
        ),
{
    let mut catalog: StrMap<Advancement> = StrMap::new();
    let ghost svs = sources_view(sources@);
    assert(catalog.model() =~= Map::<Seq<char>, AdvancementView>::empty());
    let mut i: usize = 0;
    while i < sources.len()
        invariant
            i <= sources@.len(),
            catalog_wf(catalog),
            context.wf(),
            debug.wf(),
            svs == sources_view(sources@),
            catalog.model() == catalog_after_sources(svs, i as nat, context@),
        decreases sources@.len() - i,
    {
        assert(svs[i as int] == files_view(sources@[i as int].files@));
        load_source_files(&mut catalog, &sources[i].files, context, debug);
        i += 1;
    }
    catalog
}

/// The context after one more file: a language file, a tag file or a recipe
/// file is taken in; any other file changes nothing. A language or tag file
/// that cannot be read stops the loading.
pub open spec fn context_after_file(ctx: ContextView, file: FileView) -> Result<
    ContextView,
    LoadError,
> {
    if category_matches(FileCategory::Language, file.0) {
        match lang_loaded(ctx.lang, json_of_text(file.1)) {
            Some(lang) => Ok(ContextView { lang, tags: ctx.tags, recipes: ctx.recipes }),
            None => Err(LoadError::InvalidJson),
        }
    } else if category_matches(FileCategory::Tags, file.0) {
        match tag_loaded(ctx.tags, file.0, json_of_text(file.1)) {
            Ok(tags) => Ok(ContextView { lang: ctx.lang, tags, recipes: ctx.recipes }),
            Err(e) => Err(e),
        }
    } else if category_matches(FileCategory::Recipe, file.0) {
        Ok(
            ContextView {
                lang: ctx.lang,
                tags: ctx.tags,
                recipes: recipe_loaded(ctx.recipes, file.0, json_of_text(file.1)),
            },
        )
    } else {
        Ok(ctx)
    }
}

/// The context after the first `n` files, or the first fault met.
pub open spec fn context_after_files(ctx: ContextView, files: Seq<FileView>, n: nat) -> Result<
    ContextView,
    LoadError,
>
    decreases n,
{
    if n == 0 || n > files.len() {
        Ok(ctx)
    } else {
        match context_after_files(ctx, files, (n - 1) as nat) {
            Ok(prev) => context_after_file(prev, files[n - 1]),
            Err(e) => Err(e),
        }
    }
}

/// The context after the first `k` sources, or the first fault met.
pub open spec fn context_after_sources(sources: Seq<Seq<FileView>>, k: nat) -> Result<
    ContextView,
    LoadError,
>
    decreases k,
{
    if k == 0 || k > sources.len() {
        Ok(
            ContextView { lang: Map::empty(), tags: Map::empty(), recipes: Map::empty() },
        )
    } else {
        match context_after_sources(sources, (k - 1) as nat) {
            Ok(prev) => context_after_files(prev, sources[k - 1], sources[k - 1].len()),
            Err(e) => Err(e),
        }
    }
}

impl LoadingContext {
    /// Takes one file of a source into the context.
    pub fn absorb_file(&mut self, file_path: &str, content: &str, archive_name: &str) -> (r: Result<
        (),
        LoadError,
    >)
        requires
            old(self).wf(),
        ensures
            final(self).wf(),
            match context_after_file(old(self)@, (file_path@, content@)) {
                Ok(ctx) => r is Ok && final(self)@ == ctx,
                Err(e) => r == Err::<(), LoadError>(e),
            },
    {
        if FileCategory::Language.matches(file_path) {
            load_language_file(&mut self.lang_map, file_path, content, archive_name)
        } else if FileCategory::Tags.matches(file_path) {
            load_tag_from_content(&mut self.tag_map, file_path, content)
        } else if FileCategory::Recipe.matches(file_path) {
            load_recipe_file(&mut self.recipe_map, file_path, content);
            Ok(())
        } else {
            Ok(())
        }
    }

    /// The context that sources held in memory give, taken in order.
    pub fn from_sources(sources: &Vec<Source>) -> (r: Result<LoadingContext, LoadError>)
        ensures
            match context_after_sources(sources_view(sources@), sources@.len() as nat) {
                Ok(ctx) => r is Ok && r->Ok_0.wf() && r->Ok_0@ == ctx,
                Err(e) => r == Err::<LoadingContext, LoadError>(e),
            },
    {
        let mut context = LoadingContext::new();
        let ghost svs = sources_view(sources@);
        let mut i: usize = 0;
        while i < sources.len()
            invariant
                i <= sources@.len(),
                context.wf(),
                svs == sources_view(sources@),
                context_after_sources(svs, i as nat) == Ok::<ContextView, LoadError>(context@),
            decreases sources@.len() - i,
        {
            let files = &sources[i].files;
            let ghost fvs = files_view(files@);
            let ghost start = context@;
            assert(svs[i as int] == fvs);
            let mut j: usize = 0;
            while j < files.len()
                invariant
                    j <= files@.len(),
                    i < sources@.len(),
                    context.wf(),
                    svs == sources_view(sources@),
                    svs[i as int] == fvs,
                    fvs == files_view(files@),
                    context_after_sources(svs, i as nat) == Ok::<ContextView, LoadError>(start),
                    context_after_files(start, fvs, j as nat) == Ok::<ContextView, LoadError>(
                        context@,
                    ),
                decreases files@.len() - j,
            {
                assert(fvs[j as int] == (files@[j as int].path@, files@[j as int].content@));
                match context.absorb_file(
                    files[j].path.as_str(),
                    files[j].content.as_str(),
                    sources[i].name.as_str(),
                ) {
                    Ok(()) => {},
                    Err(e) => {
                        proof {
                            lemma_files_fault(start, fvs, (j + 1) as nat, fvs.len());
                            lemma_sources_fault(svs, (i + 1) as nat, svs.len());
                        }
                        return Err(e);
                    },
                }
                j += 1;
            }
            i += 1;
        }
        Ok(context)
    }

    /// The context that the given sources give, taken in order: the
    /// language, tag and recipe files that each source lists are read and
    /// taken in. A source that cannot list or read a file stops the loading,
    /// as does a language or tag file that cannot be read. Without sources
    /// there is nothing to stop it, and the context knows nothing. Whatever
    /// the sources hand out, the context is that of the files read, source
    /// by source.
    pub fn from_archives<A: Archive>(archives: &mut Vec<A>) -> (r: Result<LoadingContext, LoadError>)
        ensures
            final(archives)@.len() == old(archives)@.len(),
            old(archives)@.len() == 0 ==> r is Ok,
            r matches Ok(context) ==> context.wf() && is_context_of(
                context@,
                old(archives)@.len() as nat,
            ),
    {
        let mut context = LoadingContext::new();
        let categories = [FileCategory::Language, FileCategory::Tags, FileCategory::Recipe];
        let n = archives.len();
        let ghost mut read: Seq<Seq<FileView>> = Seq::empty();
        let mut i: usize = 0;
        while i < n
            invariant
                i <= n,
                n == archives@.len(),
                n == old(archives)@.len(),
                context.wf(),
                read.len() == i,
                context_after_sources(read, i as nat) == Ok::<ContextView, LoadError>(context@),
            decreases n - i,
        {
            let name = archives[i].name();
            let listed = archives[i].list_files(&categories);
            let files = match listed {
                Ok(files) => files,
                Err(e) => {
                    return Err(e);
                },
            };
            let ghost start = context@;
            let ghost mut taken: Seq<FileView> = Seq::empty();
            let mut j: usize = 0;
            while j < files.len()
                invariant
                    j <= files@.len(),
                    i < n,
                    n == archives@.len(),
                    n == old(archives)@.len(),
                    context.wf(),
                    taken.len() == j,
                    context_after_files(start, taken, j as nat) == Ok::<ContextView, LoadError>(
                        context@,
                    ),
                decreases files@.len() - j,
            {
                let read_result = archives[i].read_file(files[j].as_str());
                let content = match read_result {
                    Ok(content) => content,
                    Err(e) => {
                        return Err(e);
                    },
                };
                let ghost before = taken;
                proof {
                    taken = taken.push((files@[j as int]@, content@));
                    lemma_context_files_prefix(start, before, taken, j as nat);
                }
                match context.absorb_file(files[j].as_str(), content.as_str(), name.as_str()) {
                    Ok(()) => {},
                    Err(e) => {
                        return Err(e);
                    },
                }
                j += 1;
            }
            proof {
                let before = read;
                read = read.push(taken);
                lemma_context_sources_prefix(before, read, i as nat);
            }
            i += 1;
        }
        Ok(context)
    }
}

/// Whether `ctx` is the context that some `count` sources give, taken in
/// order.
pub open spec fn is_context_of(ctx: ContextView, count: nat) -> bool {
    exists|read: Seq<Seq<FileView>>|
        read.len() == count && #[trigger] context_after_sources(read, count) == Ok::<
            ContextView,
            LoadError,
        >(ctx)
}

/// Whether `catalog` is the catalog that some `count` sources give under
/// the context `ctx`, taken in order.
pub open spec fn is_catalog_of(catalog: CatalogModel, ctx: ContextView, count: nat) -> bool {
    exists|read: Seq<Seq<FileView>>|
        read.len() == count && #[trigger] catalog_after_sources(read, count, ctx) == catalog
}

/// The context after the first `n` files depends on those files only.
pub proof fn lemma_context_files_prefix(
    ctx: ContextView,
    a: Seq<FileView>,
    b: Seq<FileView>,
    n: nat,
)
    requires
        n <= a.len(),
        n <= b.len(),
        forall|i: int| 0 <= i < n ==> a[i] == b[i],
    ensures
        context_after_files(ctx, a, n) == context_after_files(ctx, b, n),
    decreases n,
{
    if n > 0 {
        lemma_context_files_prefix(ctx, a, b, (n - 1) as nat);
    }
}

/// The context after the first `k` sources depends on those sources only.
pub proof fn lemma_context_sources_prefix(a: Seq<Seq<FileView>>, b: Seq<Seq<FileView>>, k: nat)
    requires
        k <= a.len(),
        k <= b.len(),
        forall|i: int| 0 <= i < k ==> a[i] == b[i],
    ensures
        context_after_sources(a, k) == context_after_sources(b, k),
    decreases k,
{
    if k > 0 {
        lemma_context_sources_prefix(a, b, (k - 1) as nat);
    }
}

/// The catalog after the first `k` sources depends on those sources only.
pub proof fn lemma_catalog_sources_prefix(
    a: Seq<Seq<FileView>>,
    b: Seq<Seq<FileView>>,
    k: nat,
    ctx: ContextView,
)
    requires
        k <= a.len(),
        k <= b.len(),
        forall|i: int| 0 <= i < k ==> a[i] == b[i],
    ensures
        catalog_after_sources(a, k, ctx) == catalog_after_sources(b, k, ctx),
    decreases k,
{
    if k > 0 {
        lemma_catalog_sources_prefix(a, b, (k - 1) as nat, ctx);
    }
}

/// Once a file stops the loading, it stays stopped.
pub proof fn lemma_files_fault(ctx: ContextView, files: Seq<FileView>, n: nat, m: nat)
    requires
        n <= m <= files.len(),
        context_after_files(ctx, files, n) is Err,
    ensures
        context_after_files(ctx, files, m) == context_after_files(ctx, files, n),
    decreases m,
{
    if m > n {
        lemma_files_fault(ctx, files, n, (m - 1) as nat);
    }
}

/// Once a source stops the loading, it stays stopped.
pub proof fn lemma_sources_fault(sources: Seq<Seq<FileView>>, k: nat, m: nat)
    requires
        k <= m <= sources.len(),
        context_after_sources(sources, k) is Err,
    ensures
        context_after_sources(sources, m) == context_after_sources(sources, k),
    decreases m,
{
    if m > k {
        lemma_sources_fault(sources, k, (m - 1) as nat);
    }
}

/// Loads the catalog from the given sources, in order: the context first,
/// then every advancement file that a source lists. A file that cannot be
/// read or loaded is passed over; a source that cannot list its files stops
/// the loading. Without sources there is nothing to stop it: the context
/// knows nothing, the catalog and the record are empty. Whatever the sources
/// hand out, the context is that of the files read, and the catalog is the
/// one that the advancement files read give under that context, source by
/// source.
pub fn load_all_advancements<A: Archive>(archives: &mut Vec<A>) -> (r: Result<
    (LoadingContext, StrMap<Advancement>, DebugMap),
    LoadError,
>)
    ensures
        final(archives)@.len() == old(archives)@.len(),
        old(archives)@.len() == 0 ==> r is Ok,
        r matches Ok(loaded) ==> {
            &&& loaded.0.wf()
            &&& catalog_wf(loaded.1)
            &&& loaded.2.wf()
            &&& is_context_of(loaded.0@, old(archives)@.len() as nat)
            &&& is_catalog_of(loaded.1.model(), loaded.0@, old(archives)@.len() as nat)
            &&& old(archives)@.len() == 0 ==> loaded.2@ == Map::<
                Seq<char>,
                AdvancementDebugInfo,
            >::empty()
        },
{
    let mut debug = init_debug();
    let context = match LoadingContext::from_archives(archives) {
        Ok(context) => context,
        Err(e) => {
            return Err(e);
        },
    };
    let categories = [FileCategory::Advancement];
    let mut catalog: StrMap<Advancement> = StrMap::new();
    assert(catalog.model() =~= Map::<Seq<char>, AdvancementView>::empty());
    let n = archives.len();
    let ghost mut read: Seq<Seq<FileView>> = Seq::empty();
    let mut i: usize = 0;
    while i < n
        invariant
            i <= n,
            n == archives@.len(),
            n == old(archives)@.len(),
            context.wf(),
            debug.wf(),
            catalog_wf(catalog),
            read.len() == i,
            catalog.model() == catalog_after_sources(read, i as nat, context@),
            i == 0 ==> debug@ == Map::<Seq<char>, AdvancementDebugInfo>::empty(),
        decreases n - i,
    {
        let listed = archives[i].list_files(&categories);
        let paths = match listed {
            Ok(paths) => paths,
            Err(e) => {
                return Err(e);
            },
        };
        let mut files: Vec<SourceFile> = Vec::new();
        let mut j: usize = 0;
        while j < paths.len()
            invariant
                j <= paths@.len(),
                i < n,
                n == archives@.len(),
                n == old(archives)@.len(),
            decreases paths@.len() - j,
        {
            let read_result = archives[i].read_file(paths[j].as_str());
            match read_result {
                Ok(content) => {
                    files.push(SourceFile { path: paths[j].clone(), content });
                },
                Err(_) => {},
            }
            j += 1;
        }
        load_source_files(&mut catalog, &files, &context, &mut debug);
        proof {
            let before = read;
            read = read.push(files_view(files@));
            lemma_catalog_sources_prefix(before, read, i as nat, context@);
        }
        i += 1;
    }
    Ok((context, catalog, debug))
}

} // verus!
