//! The builder of a loader tree: it numbers the module slots of a route tree,
//! collects their imports and modules, and writes the code fragment of each.

use indexmap::IndexMap;
use vstd::prelude::*;
use vstd::string::StringExecFns;

use crate::build_graph::Lookup;
use crate::ordered::insert_module;
use crate::ordered::keys;
use crate::ordered::module_entries;
use crate::ordered::new_module_map;
use crate::text::decimal;
use crate::text::push_char;
use crate::text::quote_string;
use crate::text::render_decimal;
use crate::text::string_literal;
use crate::text::strip_prefix;

verus! {

/// The kind of module that fills one slot of a route segment.
#[derive(Clone, Copy, Debug, PartialEq, Eq, Structural)]
pub enum AppDirModuleType {
    Page,
    DefaultPage,
    Error,
    Layout,
    Loading,
    Template,
    NotFound,
    Interceptor,
}

/// A character of a display name: a lower-case letter or a hyphen.
pub open spec fn kebab_char(c: char) -> bool {
    ('a' <= c <= 'z') || c == '-'
}

impl AppDirModuleType {
    /// The display name of the kind, as it appears in generated identifiers:
    /// lower-case words joined by hyphens.
    pub open spec fn display_name(self) -> Seq<char> {
        match self {
            AppDirModuleType::Page => "page"@,
            AppDirModuleType::DefaultPage => "default-page"@,
            AppDirModuleType::Error => "error"@,
            AppDirModuleType::Layout => "layout"@,
            AppDirModuleType::Loading => "loading"@,
            AppDirModuleType::Template => "template"@,
            AppDirModuleType::NotFound => "not-found"@,
            AppDirModuleType::Interceptor => "interceptor"@,
        }
    }

    /// The display name of a kind is not empty, and each of its characters
    /// is a lower-case letter or a hyphen.
    pub proof fn lemma_display_name_kebab(self)
        ensures
            self.display_name().len() > 0,
            forall|i: int|
                0 <= i < self.display_name().len() ==> kebab_char(#[trigger] self.display_name()[i]),
    {
        reveal_strlit("page");
        reveal_strlit("default-page");
        reveal_strlit("error");
        reveal_strlit("layout");
        reveal_strlit("loading");
        reveal_strlit("template");
        reveal_strlit("not-found");
        reveal_strlit("interceptor");
    }

    /// The display name of the kind.
    pub fn name(&self) -> (out: &'static str)
        ensures
            out@ == self.display_name(),
            out@.len() > 0,
            forall|i: int| 0 <= i < out@.len() ==> kebab_char(#[trigger] out@[i]),
    {
        proof {
            self.lemma_display_name_kebab();
        }
        match self {
            AppDirModuleType::Page => "page",
            AppDirModuleType::DefaultPage => "default-page",
            AppDirModuleType::Error => "error",
            AppDirModuleType::Layout => "layout",
            AppDirModuleType::Loading => "loading",
            AppDirModuleType::Template => "template",
            AppDirModuleType::NotFound => "not-found",
            AppDirModuleType::Interceptor => "interceptor",
        }
    }
}

/// The text from which the identifier of slot number `index` is made: the
/// kind's name, a space, `#` and the number.
pub open spec fn slot_label(kind: AppDirModuleType, index: nat) -> Seq<char> {
    kind.display_name() + " #"@ + decimal(index)
}

/// The name under which the module of slot number `index` is imported.
pub open spec fn placeholder(index: nat) -> Seq<char> {
    "MODULE_"@ + decimal(index)
}

/// The import that binds `identifier` to the module of slot number `index`.
pub open spec fn import_statement(identifier: Seq<char>, index: nat) -> Seq<char> {
    "import * as "@ + identifier + " from \""@ + placeholder(index) + "\";\n"@
}

/// The path of a module as seen from the project root: what follows the root
/// and one separator, or the whole path where it does not lie under the root.
pub open spec fn relative_path(absolute_path: Seq<char>, project_root: Seq<char>, separator: char) -> Seq<
    char,
> {
    if project_root.push(separator).is_prefix_of(absolute_path) {
        absolute_path.skip(project_root.len() as int + 1)
    } else {
        absolute_path
    }
}

/// The code fragment of a slot: a function that yields the imported module,
/// then the module's path and its relative path, both as string literals.
pub open spec fn module_tuple_code(
    identifier: Seq<char>,
    absolute_path: Seq<char>,
    relative_path: Seq<char>,
) -> Seq<char> {
    "[() => "@ + identifier + ", "@ + string_literal(absolute_path) + ", "@ + string_literal(
        relative_path,
    ) + "]"@
}

/// What the build gave for one slot.
#[derive(Debug, PartialEq, Eq)]
pub struct ProcessedModule {
    /// The identifier mangled from the slot's label.
    pub identifier: String,
    /// The handle of the module that processing the slot's source gave.
    pub module: usize,
    /// The lookup of the module's path.
    pub path: Lookup<String>,
    /// The lookup of the path of the project root.
    pub project_root: Lookup<String>,
}

/// Why a slot got no code fragment: the lookup that failed.
#[derive(Clone, Copy, Debug, PartialEq, Eq, Structural)]
pub enum SlotError {
    ModulePath,
    ProjectRoot,
}

/// One slot that a builder has built.
pub struct Slot {
    pub index: nat,
    pub identifier: Seq<char>,
    pub module: usize,
}

/// What a builder holds.
pub struct BaseLoaderTreeBuilderView {
    /// The number that the next slot gets.
    pub counter: nat,
    /// The slots built so far, in order.
    pub slots: Seq<Slot>,
    /// The imports of the slots, in order.
    pub imports: Seq<Seq<char>>,
    /// The modules by placeholder name, in insertion order.
    pub inner_assets: Seq<(Seq<char>, usize)>,
    /// The separator of path components on this machine.
    pub separator: char,
}

impl BaseLoaderTreeBuilderView {
    /// Imports and modules go in lockstep: slot by slot, one import and one
    /// module under the slot's placeholder. Slot numbers rise, and all lie
    /// below the counter.
    pub open spec fn consistent(self) -> bool {
        &&& self.imports.len() == self.slots.len()
        &&& self.inner_assets.len() == self.slots.len()
        &&& forall|k: int|
            0 <= k < self.slots.len() ==> #[trigger] self.imports[k] == import_statement(
                self.slots[k].identifier,
                self.slots[k].index,
            )
        &&& forall|k: int|
            0 <= k < self.slots.len() ==> #[trigger] self.inner_assets[k] == (
                placeholder(self.slots[k].index),
                self.slots[k].module,
            )
        &&& forall|k: int| 0 <= k < self.slots.len() ==> (#[trigger] self.slots[k]).index < self.counter
        &&& forall|j: int, k: int|
            0 <= j < k < self.slots.len() ==> (#[trigger] self.slots[j]).index < (
            #[trigger] self.slots[k]).index
    }

    /// The builder after it gave out one number.
    pub open spec fn with_number_taken(self) -> Self {
        BaseLoaderTreeBuilderView { counter: self.counter + 1, ..self }
    }

    /// The builder after it built one more slot.
    pub open spec fn with_slot(self, identifier: Seq<char>, module: usize) -> Self {
        BaseLoaderTreeBuilderView {
            counter: self.counter + 1,
            slots: self.slots.push(Slot { index: self.counter, identifier, module }),
            imports: self.imports.push(import_statement(identifier, self.counter)),
            inner_assets: self.inner_assets.push((placeholder(self.counter), module)),
            ..self
        }
    }
}

/// The code fragment of a slot, or the lookup that failed: the module's path
/// is looked up first, then the project root.
pub open spec fn slot_code(
    identifier: Seq<char>,
    absolute_path: Lookup<Seq<char>>,
    project_root: Lookup<Seq<char>>,
    separator: char,
) -> Result<Seq<char>, SlotError> {
    match absolute_path {
        Lookup::Failed => Err(SlotError::ModulePath),
        Lookup::Resolved(path) => match project_root {
            Lookup::Failed => Err(SlotError::ProjectRoot),
            Lookup::Resolved(root) => Ok(
                module_tuple_code(identifier, path, relative_path(path, root, separator)),
            ),
        },
    }
}

/// Whether both lookups gave a path and the module does not lie under the
/// project root: its path does not start with the root and one separator.
pub open spec fn outside_root(
    absolute_path: Lookup<Seq<char>>,
    project_root: Lookup<Seq<char>>,
    separator: char,
) -> bool {
    &&& absolute_path matches Lookup::Resolved(path)
    &&& project_root matches Lookup::Resolved(root)
    &&& !root.push(separator).is_prefix_of(path)
}

/// A path lookup, with the path taken by its view.
pub open spec fn lookup_view(lookup: Lookup<String>) -> Lookup<Seq<char>> {
    match lookup {
        Lookup::Resolved(path) => Lookup::Resolved(path@),
        Lookup::Failed => Lookup::Failed,
    }
}

/// What building a slot returned, with the code taken by its view.
pub open spec fn code_view(out: Result<String, SlotError>) -> Result<Seq<char>, SlotError> {
    match out {
        Ok(code) => Ok(code@),
        Err(error) => Err(error),
    }
}

/// `std::path::MAIN_SEPARATOR`: the separator of path components on the
/// machine that runs this. Which character it is depends on the machine.
#[verifier::external_body]
fn main_separator() -> (out: char) {
    std::path::MAIN_SEPARATOR
}

/// Writes the code fragment of a slot from what was looked up for it. A
/// module that does not lie under the project root is no failure: its whole
/// path stands in both places.
pub fn write_module_tuple(
    identifier: &str,
    absolute_path: &Lookup<String>,
    project_root: &Lookup<String>,
    separator: char,
) -> (out: Result<String, SlotError>)
    ensures
        code_view(out) == slot_code(
            identifier@,
            lookup_view(*absolute_path),
            lookup_view(*project_root),
            separator,
        ),
        outside_root(lookup_view(*absolute_path), lookup_view(*project_root), separator)
            ==> code_view(out) == Ok::<Seq<char>, SlotError>(
            module_tuple_code(
                identifier@,
                lookup_view(*absolute_path)->Resolved_0,
                lookup_view(*absolute_path)->Resolved_0,
            ),
        ),
{
    match absolute_path {
        Lookup::Failed => Err(SlotError::ModulePath),
        Lookup::Resolved(absolute_path) => match project_root {
            Lookup::Failed => Err(SlotError::ProjectRoot),
            Lookup::Resolved(root) => {
                let mut prefix = root.clone();
                push_char(&mut prefix, separator);
                let relative = match strip_prefix(absolute_path.as_str(), prefix.as_str()) {
                    Some(rest) => rest,
                    None => absolute_path.as_str(),
                };
                assert(relative@ =~= relative_path(absolute_path@, root@, separator));
                let mut code = String::from_str("[() => ");
                code.append(identifier);
                code.append(", ");
                code.append(quote_string(absolute_path.as_str()).as_str());
                code.append(", ");
                code.append(quote_string(relative).as_str());
                code.append("]");
                Ok(code)
            },
        },
    }
}

fn placeholder_name(index: usize) -> (out: String)
    ensures
        out@ == placeholder(index as nat),
{
    let mut out = String::from_str("MODULE_");
    out.append(render_decimal(index).as_str());
    out
}

/// The state of one code-generation session: the counter that numbers the
/// slots, and the imports and modules of the slots built so far.
pub struct BaseLoaderTreeBuilder {
    inner_assets: IndexMap<String, usize>,
    counter: usize,
    imports: Vec<String>,
    separator: char,
    slots: Ghost<Seq<Slot>>,
}

impl View for BaseLoaderTreeBuilder {
    type V = BaseLoaderTreeBuilderView;

    closed spec fn view(&self) -> BaseLoaderTreeBuilderView {
        BaseLoaderTreeBuilderView {
            counter: self.counter as nat,
            slots: self.slots@,
            imports: self.imports.deep_view(),
            inner_assets: module_entries(self.inner_assets),
            separator: self.separator,
        }
    }
}

impl BaseLoaderTreeBuilder {
    /// Imports and modules are in lockstep.
    pub open spec fn wf(&self) -> bool {
        self@.consistent()
    }

    /// A builder that has built no slot and counts from 0.
    pub fn new() -> (out: Self)
        ensures
            out.wf(),
            out@.counter == 0,
            out@.slots == Seq::<Slot>::empty(),
    {
        let out = BaseLoaderTreeBuilder {
            inner_assets: new_module_map(),
            counter: 0,
            imports: Vec::new(),
            separator: main_separator(),
            slots: Ghost(Seq::empty()),
        };
        assert(out@.imports =~= Seq::<Seq<char>>::empty());
        out
    }

    /// Gives out the next number; no two calls give the same.
    pub fn unique_number(&mut self) -> (out: usize)
        requires
            old(self).wf(),
            old(self)@.counter < usize::MAX,
        ensures
            final(self).wf(),
            out == old(self)@.counter,
            final(self)@ == old(self)@.with_number_taken(),
    {
        let i = self.counter;
        self.counter += 1;
        i
    }

    /// The label of the slot that `create_module_tuple_code` builds next, for
    /// a module of kind `module_type`: the text that the slot's identifier is
    /// mangled from.
    pub fn next_slot_label(&self, module_type: AppDirModuleType) -> (out: String)
        ensures
            out@ == slot_label(module_type, self@.counter),
    {
        let mut out = String::from_str(module_type.name());
        out.append(" #");
        out.append(render_decimal(self.counter).as_str());
        out
    }

    /// Builds one slot from a processed module: takes the next number,
    /// imports the module under the slot's placeholder, keeps the module under
    /// that placeholder, and writes the slot's code fragment. The slot is
    /// built even where a lookup failed and no fragment comes back.
    pub fn create_module_tuple_code(&mut self, processed: ProcessedModule) -> (out: Result<
        String,
        SlotError,
    >)
        requires
            old(self).wf(),
            old(self)@.counter < usize::MAX,
        ensures
            final(self).wf(),
            final(self)@ == old(self)@.with_slot(processed.identifier@, processed.module),
            code_view(out) == slot_code(
                processed.identifier@,
                lookup_view(processed.path),
                lookup_view(processed.project_root),
                old(self)@.separator,
            ),
            outside_root(
                lookup_view(processed.path),
                lookup_view(processed.project_root),
                old(self)@.separator,
            ) ==> code_view(out) == Ok::<Seq<char>, SlotError>(
                module_tuple_code(
                    processed.identifier@,
                    lookup_view(processed.path)->Resolved_0,
                    lookup_view(processed.path)->Resolved_0,
                ),
            ),
    {
        let ghost before = self@;
        let i = self.unique_number();
        let name = placeholder_name(i);

        let mut import = String::from_str("import * as ");
        import.append(processed.identifier.as_str());
        import.append(" from \"");
        import.append(name.as_str());
        import.append("\";\n");
        self.imports.push(import);

        proof {
            lemma_placeholder_unused(before, i as nat);
        }
        insert_module(&mut self.inner_assets, name, processed.module);
        proof {
            self.slots@ = self.slots@.push(
                Slot { index: i as nat, identifier: processed.identifier@, module: processed.module },
            );
            let after = before.with_slot(processed.identifier@, processed.module);
            assert(self@.imports =~= after.imports);
            assert(self@.inner_assets =~= after.inner_assets);
        }

        write_module_tuple(
            processed.identifier.as_str(),
            &processed.path,
            &processed.project_root,
            self.separator,
        )
    }

    /// The separator of path components that the builder writes relative
    /// paths by.
    pub fn separator(&self) -> (out: char)
        ensures
            out == self@.separator,
    {
        self.separator
    }

    /// The number that the next slot gets.
    pub fn counter(&self) -> (out: usize)
        ensures
            out == self@.counter,
    {
        self.counter
    }

    /// The imports of the slots built so far, in order.
    pub fn imports(&self) -> (out: &Vec<String>)
        ensures
            out.deep_view() == self@.imports,
    {
        &self.imports
    }

    /// The modules of the slots built so far, by placeholder name.
    pub fn inner_assets(&self) -> (out: &IndexMap<String, usize>)
        ensures
            module_entries(*out) == self@.inner_assets,
    {
        &self.inner_assets
    }
}

/// Slots with different numbers have different placeholders.
pub proof fn lemma_placeholder_injective(a: nat, b: nat)
    requires
        placeholder(a) == placeholder(b),
    ensures
        a == b,
{
    assert(placeholder(a).skip("MODULE_"@.len() as int) =~= decimal(a));
    assert(placeholder(b).skip("MODULE_"@.len() as int) =~= decimal(b));
    crate::text::lemma_decimal_injective(a, b);
}

/// In a consistent builder no module is kept under the placeholder of a slot
/// number that is not below the counter.
proof fn lemma_placeholder_unused(builder: BaseLoaderTreeBuilderView, index: nat)
    requires
        builder.consistent(),
        builder.counter <= index,
    ensures
        !keys(builder.inner_assets).contains(placeholder(index)),
{
    if keys(builder.inner_assets).contains(placeholder(index)) {
        let k = choose|k: int|
            0 <= k < keys(builder.inner_assets).len() && keys(builder.inner_assets)[k]
                == placeholder(index);
        assert(builder.inner_assets[k].0 == placeholder(builder.slots[k].index));
        lemma_placeholder_injective(builder.slots[k].index, index);
    }
}

} // verus!
