//! What holds of every loader-tree builder and of the text it writes.

use vstd::prelude::*;

use crate::base_loader_tree::import_statement;
use crate::base_loader_tree::lemma_placeholder_injective;
use crate::base_loader_tree::module_tuple_code;
use crate::base_loader_tree::placeholder;
use crate::base_loader_tree::relative_path;
use crate::base_loader_tree::slot_code;
use crate::base_loader_tree::slot_label;
use crate::base_loader_tree::AppDirModuleType;
use crate::base_loader_tree::BaseLoaderTreeBuilderView;
use crate::base_loader_tree::SlotError;
use crate::build_graph::Lookup;
use crate::text::decimal;
use crate::text::is_digit;
use crate::text::lemma_decimal_digits;
use crate::text::lemma_decimal_injective;
use crate::text::string_literal;

verus! {

/// The name of a kind holds no `#`, and no two kinds have the same name.
proof fn lemma_display_names(first: AppDirModuleType, second: AppDirModuleType)
    ensures
        first.display_name().len() >= 4,
        forall|i: int|
            0 <= i < first.display_name().len() ==> #[trigger] first.display_name()[i] != '#',
        first.display_name() == second.display_name() ==> first == second,
{
    reveal_strlit("page");
    reveal_strlit("default-page");
    reveal_strlit("error");
    reveal_strlit("layout");
    reveal_strlit("loading");
    reveal_strlit("template");
    reveal_strlit("not-found");
    reveal_strlit("interceptor");
    if first.display_name() == second.display_name() {
        assert(first.display_name().len() == second.display_name().len());
        assert(first.display_name()[0] == second.display_name()[0]);
    }
}

/// A label tells its slot: two labels are the same only for the same kind and
/// the same number. So what is mangled for one slot is never what is mangled
/// for another, whatever their kinds.
pub proof fn lemma_slot_label_injective(
    first: AppDirModuleType,
    a: nat,
    second: AppDirModuleType,
    b: nat,
)
    requires
        slot_label(first, a) == slot_label(second, b),
    ensures
        first == second,
        a == b,
{
    reveal_strlit(" #");
    let label = slot_label(first, a);
    let m = first.display_name().len() as int;
    let n = second.display_name().len() as int;
    lemma_display_names(first, second);
    lemma_display_names(second, first);
    lemma_decimal_digits(a);
    lemma_decimal_digits(b);
    assert(label[m + 1] == '#');
    assert(slot_label(second, b)[n + 1] == '#');
    if m < n {
        if m + 1 < n {
            assert(slot_label(second, b)[m + 1] == second.display_name()[m + 1]);
        } else {
            assert(slot_label(second, b)[m + 1] == ' ');
        }
        assert(false);
    }
    if n < m {
        if n + 1 < m {
            assert(label[n + 1] == first.display_name()[n + 1]);
        } else {
            assert(label[n + 1] == ' ');
        }
        assert(false);
    }
    assert(first.display_name() =~= label.subrange(0, m));
    assert(second.display_name() =~= slot_label(second, b).subrange(0, n));
    assert(label.skip(m + 2) =~= decimal(a));
    assert(slot_label(second, b).skip(n + 2) =~= decimal(b));
    lemma_decimal_injective(a, b);
}

/// Two slots of the same kind with different numbers have different labels.
pub proof fn lemma_slot_labels_differ(kind: AppDirModuleType, a: nat, b: nat)
    requires
        a != b,
    ensures
        slot_label(kind, a) != slot_label(kind, b),
{
    if slot_label(kind, a) == slot_label(kind, b) {
        lemma_slot_label_injective(kind, a, kind, b);
    }
}

/// An import ends with the slot's number and three more characters, and an
/// underscore stands before the number.
proof fn lemma_import_statement_end(identifier: Seq<char>, index: nat)
    ensures
        ({
            let line = import_statement(identifier, index);
            let digits = decimal(index);
            &&& line.len() >= digits.len() + 4
            &&& line.subrange(line.len() - 3 - digits.len(), line.len() - 3) == digits
            &&& line[line.len() - 4 - digits.len()] == '_'
        }),
{
    reveal_strlit("MODULE_");
    reveal_strlit("\";\n");
    let line = import_statement(identifier, index);
    let digits = decimal(index);
    let head = "import * as "@ + identifier + " from \""@ + "MODULE_"@;
    assert(line =~= head + digits + "\";\n"@);
    assert(line.subrange(line.len() - 3 - digits.len(), line.len() - 3) =~= digits);
    assert(head[head.len() - 1] == '_');
}

/// The imports of two slots with different numbers differ, whatever their
/// identifiers are.
pub proof fn lemma_import_statements_differ(
    first: Seq<char>,
    a: nat,
    second: Seq<char>,
    b: nat,
)
    requires
        a != b,
    ensures
        import_statement(first, a) != import_statement(second, b),
{
    let line = import_statement(first, a);
    if line == import_statement(second, b) {
        lemma_import_statement_end(first, a);
        lemma_import_statement_end(second, b);
        lemma_decimal_digits(a);
        lemma_decimal_digits(b);
        let m = decimal(a).len() as int;
        let n = decimal(b).len() as int;
        if m == n {
            lemma_decimal_injective(a, b);
        } else if m < n {
            let at = line.len() - 4 - m;
            assert(line[at] == decimal(b)[n - m - 1]) by {
                assert(line.subrange(line.len() - 3 - n, line.len() - 3)[n - m - 1] == line[at]);
            }
            assert(is_digit(decimal(b)[n - m - 1]));
        } else {
            let at = line.len() - 4 - n;
            assert(line[at] == decimal(a)[m - n - 1]) by {
                assert(line.subrange(line.len() - 3 - m, line.len() - 3)[m - n - 1] == line[at]);
            }
            assert(is_digit(decimal(a)[m - n - 1]));
        }
    }
}

/// In a consistent builder every slot has an import and a placeholder of its
/// own: no two imports are the same, and no two modules are kept under the
/// same name.
pub proof fn lemma_slots_distinct(builder: BaseLoaderTreeBuilderView)
    requires
        builder.consistent(),
    ensures
        forall|j: int, k: int|
            0 <= j < k < builder.slots.len() ==> #[trigger] builder.imports[j]
                != #[trigger] builder.imports[k],
        forall|j: int, k: int|
            0 <= j < k < builder.slots.len() ==> (#[trigger] builder.inner_assets[j]).0 != (
            #[trigger] builder.inner_assets[k]).0,
{
    assert forall|j: int, k: int| 0 <= j < k < builder.slots.len() implies #[trigger] builder.imports[j]
        != #[trigger] builder.imports[k] by {
        assert(builder.slots[j].index < builder.slots[k].index);
        lemma_import_statements_differ(
            builder.slots[j].identifier,
            builder.slots[j].index,
            builder.slots[k].identifier,
            builder.slots[k].index,
        );
    }
    assert forall|j: int, k: int| 0 <= j < k < builder.slots.len() implies (
    #[trigger] builder.inner_assets[j]).0 != (#[trigger] builder.inner_assets[k]).0 by {
        assert(builder.slots[j].index < builder.slots[k].index);
        if placeholder(builder.slots[j].index) == placeholder(builder.slots[k].index) {
            lemma_placeholder_injective(builder.slots[j].index, builder.slots[k].index);
        }
    }
}

/// The builder after it built, in order, one slot for each of `built`, given
/// as the slot's identifier and module.
pub open spec fn after_slots(
    start: BaseLoaderTreeBuilderView,
    built: Seq<(Seq<char>, usize)>,
) -> BaseLoaderTreeBuilderView
    decreases built.len(),
{
    if built.len() == 0 {
        start
    } else {
        after_slots(start, built.drop_last()).with_slot(built.last().0, built.last().1)
    }
}

/// Building slots keeps a builder consistent, and after `n` slots the counter
/// is `n` above where it started; so are the numbers of imports and of
/// modules. Two slots built from the same identifier and module are two
/// slots: each has its number, its import and its placeholder.
pub proof fn lemma_after_slots(start: BaseLoaderTreeBuilderView, built: Seq<(Seq<char>, usize)>)
    requires
        start.consistent(),
    ensures
        after_slots(start, built).consistent(),
        after_slots(start, built).counter == start.counter + built.len(),
        after_slots(start, built).slots.len() == start.slots.len() + built.len(),
        after_slots(start, built).imports.len() == start.imports.len() + built.len(),
        after_slots(start, built).inner_assets.len() == start.inner_assets.len() + built.len(),
        forall|i: int|
            0 <= i < built.len() ==> (#[trigger] after_slots(start, built).slots[start.slots.len()
                + i]).index == start.counter + i,
    decreases built.len(),
{
    if built.len() > 0 {
        lemma_after_slots(start, built.drop_last());
        let before = after_slots(start, built.drop_last());
        let after = before.with_slot(built.last().0, built.last().1);
        assert forall|i: int| 0 <= i < built.len() implies (#[trigger] after.slots[start.slots.len()
            + i]).index == start.counter + i by {
            if i < built.len() - 1 {
                assert(after.slots[start.slots.len() + i] == before.slots[start.slots.len() + i]);
            }
        }
    }
}

/// Two code fragments for the same paths differ wherever their identifiers
/// differ.
pub proof fn lemma_fragments_differ(
    first: Seq<char>,
    second: Seq<char>,
    absolute_path: Seq<char>,
    relative: Seq<char>,
)
    requires
        first != second,
    ensures
        module_tuple_code(first, absolute_path, relative) != module_tuple_code(
            second,
            absolute_path,
            relative,
        ),
{
    let head = "[() => "@;
    let tail = ", "@ + string_literal(absolute_path) + ", "@ + string_literal(relative) + "]"@;
    let one = module_tuple_code(first, absolute_path, relative);
    let other = module_tuple_code(second, absolute_path, relative);
    assert(one =~= head + first + tail);
    assert(other =~= head + second + tail);
    if one == other {
        assert(first.len() == second.len());
        assert(one.subrange(head.len() as int, (head.len() + first.len()) as int) =~= first);
        assert(other.subrange(head.len() as int, (head.len() + second.len()) as int) =~= second);
    }
}

/// Building a slot twice for the same kind and the same module gives two
/// different code fragments, whatever the counter was, provided that the
/// mangling gives different labels different identifiers: the identifier of
/// the first is mangled from the label with the counter, that of the second
/// from the label with the counter plus one.
pub proof fn lemma_repeated_slot_differs(
    mangle: spec_fn(Seq<char>) -> Seq<char>,
    kind: AppDirModuleType,
    counter: nat,
    absolute_path: Seq<char>,
    project_root: Seq<char>,
    separator: char,
)
    requires
        forall|a: Seq<char>, b: Seq<char>| #[trigger] mangle(a) == #[trigger] mangle(b) ==> a == b,
    ensures
        slot_code(
            mangle(slot_label(kind, counter)),
            Lookup::Resolved(absolute_path),
            Lookup::Resolved(project_root),
            separator,
        ) is Ok,
        slot_code(
            mangle(slot_label(kind, counter + 1)),
            Lookup::Resolved(absolute_path),
            Lookup::Resolved(project_root),
            separator,
        ) is Ok,
        slot_code(
            mangle(slot_label(kind, counter)),
            Lookup::Resolved(absolute_path),
            Lookup::Resolved(project_root),
            separator,
        ) != slot_code(
            mangle(slot_label(kind, counter + 1)),
            Lookup::Resolved(absolute_path),
            Lookup::Resolved(project_root),
            separator,
        ),
{
    lemma_slot_labels_differ(kind, counter, counter + 1);
    lemma_fragments_differ(
        mangle(slot_label(kind, counter)),
        mangle(slot_label(kind, counter + 1)),
        absolute_path,
        relative_path(absolute_path, project_root, separator),
    );
}

/// A module that does not lie under the project root has its whole path as
/// relative path: the two paths of its code fragment are the same.
pub proof fn lemma_relative_path_outside_root(
    identifier: Seq<char>,
    absolute_path: Seq<char>,
    project_root: Seq<char>,
    separator: char,
)
    requires
        !project_root.push(separator).is_prefix_of(absolute_path),
    ensures
        relative_path(absolute_path, project_root, separator) == absolute_path,
        slot_code(
            identifier,
            Lookup::Resolved(absolute_path),
            Lookup::Resolved(project_root),
            separator,
        ) == Ok::<Seq<char>, SlotError>(
            module_tuple_code(identifier, absolute_path, absolute_path),
        ),
{
}

/// A module that lies under the project root has as relative path what
/// follows the root and the separator.
pub proof fn lemma_relative_path_under_root(
    rest: Seq<char>,
    project_root: Seq<char>,
    separator: char,
)
    ensures
        relative_path(project_root.push(separator) + rest, project_root, separator) == rest,
{
    let prefix = project_root.push(separator);
    let path = prefix + rest;
    assert(path.subrange(0, prefix.len() as int) =~= prefix);
    assert(path.skip(project_root.len() as int + 1) =~= rest);
}

} // verus!
