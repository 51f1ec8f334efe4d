use next_build::base_loader_tree::AppDirModuleType;
use next_build::base_loader_tree::BaseLoaderTreeBuilder;
use next_build::base_loader_tree::ProcessedModule;
use next_build::base_loader_tree::write_module_tuple;
use next_build::base_loader_tree::SlotError;
use next_build::build_graph::Lookup;

const ROOT: &str = "/project";

fn builder() -> BaseLoaderTreeBuilder {
    BaseLoaderTreeBuilder::new()
}

fn under_root(root: &str, rest: &str) -> String {
    format!("{}{}{}", root, std::path::MAIN_SEPARATOR, rest)
}

fn processed(identifier: &str, module: usize, path: &str) -> ProcessedModule {
    ProcessedModule {
        identifier: identifier.to_string(),
        module,
        path: Lookup::Resolved(path.to_string()),
        project_root: Lookup::Resolved(ROOT.to_string()),
    }
}

#[test]
fn kinds_have_their_names() {
    assert_eq!(AppDirModuleType::Page.name(), "page");
    assert_eq!(AppDirModuleType::DefaultPage.name(), "default-page");
    assert_eq!(AppDirModuleType::Error.name(), "error");
    assert_eq!(AppDirModuleType::Layout.name(), "layout");
    assert_eq!(AppDirModuleType::Loading.name(), "loading");
    assert_eq!(AppDirModuleType::Template.name(), "template");
    assert_eq!(AppDirModuleType::NotFound.name(), "not-found");
    assert_eq!(AppDirModuleType::Interceptor.name(), "interceptor");
}

#[test]
fn kind_names_are_lower_case_words_and_hyphens() {
    for kind in [
        AppDirModuleType::Page,
        AppDirModuleType::DefaultPage,
        AppDirModuleType::Error,
        AppDirModuleType::Layout,
        AppDirModuleType::Loading,
        AppDirModuleType::Template,
        AppDirModuleType::NotFound,
        AppDirModuleType::Interceptor,
    ] {
        let name = kind.name();
        assert!(!name.is_empty());
        assert!(name.chars().all(|c| c.is_ascii_lowercase() || c == '-'));
    }
}

#[test]
fn unique_numbers_count_up_from_zero() {
    let mut builder = builder();
    assert_eq!(builder.unique_number(), 0);
    assert_eq!(builder.unique_number(), 1);
    assert_eq!(builder.unique_number(), 2);
    assert!(builder.imports().is_empty());
    assert!(builder.inner_assets().is_empty());
}

#[test]
fn slot_label_names_kind_and_number() {
    let mut builder = builder();
    assert_eq!(builder.next_slot_label(AppDirModuleType::Page), "page #0");
    assert_eq!(builder.next_slot_label(AppDirModuleType::NotFound), "not-found #0");
    for _ in 0..12 {
        builder.unique_number();
    }
    assert_eq!(builder.next_slot_label(AppDirModuleType::DefaultPage), "default-page #12");
}

#[test]
fn fragment_of_a_module_under_the_root() {
    let mut builder = builder();
    let path = under_root("/project", "app/page.tsx");
    let code = builder.create_module_tuple_code(processed("__page_0__", 5, &path)).unwrap();
    assert_eq!(code, format!("[() => __page_0__, {:?}, \"app/page.tsx\"]", path));
    assert_eq!(builder.imports(), &vec!["import * as __page_0__ from \"MODULE_0\";\n".to_string()]);
    assert_eq!(builder.inner_assets().len(), 1);
    assert_eq!(builder.inner_assets().get_index(0), Some((&"MODULE_0".to_string(), &5)));
    assert_eq!(builder.unique_number(), 1);
}

#[test]
fn fragment_on_this_machine_has_the_expected_text() {
    if std::path::MAIN_SEPARATOR == '/' {
        let mut builder = builder();
        let code = builder
            .create_module_tuple_code(processed("id", 1, "/project/app/layout.tsx"))
            .unwrap();
        assert_eq!(code, "[() => id, \"/project/app/layout.tsx\", \"app/layout.tsx\"]");
    }
}

#[test]
fn module_outside_the_root_keeps_its_path() {
    let mut builder = builder();
    let code = builder
        .create_module_tuple_code(processed("id", 1, "/framework/dist/not-found.js"))
        .unwrap();
    assert_eq!(
        code,
        "[() => id, \"/framework/dist/not-found.js\", \"/framework/dist/not-found.js\"]"
    );
}

#[test]
fn root_without_separator_is_no_prefix() {
    let mut builder = builder();
    let code = builder.create_module_tuple_code(processed("id", 1, "/projects/a.js")).unwrap();
    assert_eq!(code, "[() => id, \"/projects/a.js\", \"/projects/a.js\"]");
    let code = builder.create_module_tuple_code(processed("id", 1, "/project")).unwrap();
    assert_eq!(code, "[() => id, \"/project\", \"/project\"]");
    let only_root = under_root("/project", "");
    let code = builder.create_module_tuple_code(processed("id", 1, &only_root)).unwrap();
    assert_eq!(code, format!("[() => id, {:?}, \"\"]", only_root));
}

#[test]
fn paths_are_quoted() {
    let mut builder = builder();
    let path = under_root("/project", "app/\"quoted\"\\back\nline.tsx");
    let code = builder.create_module_tuple_code(processed("id", 1, &path)).unwrap();
    assert_eq!(
        code,
        format!(
            "[() => id, {}, {}]",
            serde_json::to_string(&path).unwrap(),
            "\"app/\\\"quoted\\\"\\\\back\\nline.tsx\""
        )
    );
}

#[test]
fn same_arguments_twice_give_two_slots() {
    let mut builder = builder();
    let path = under_root("/project", "app/page.tsx");
    let first_label = builder.next_slot_label(AppDirModuleType::Page);
    let first = builder.create_module_tuple_code(processed(&first_label, 5, &path)).unwrap();
    let second_label = builder.next_slot_label(AppDirModuleType::Page);
    let second = builder.create_module_tuple_code(processed(&second_label, 5, &path)).unwrap();

    assert_eq!(first_label, "page #0");
    assert_eq!(second_label, "page #1");
    assert_ne!(first, second);
    assert_eq!(
        builder.imports(),
        &vec![
            "import * as page #0 from \"MODULE_0\";\n".to_string(),
            "import * as page #1 from \"MODULE_1\";\n".to_string(),
        ]
    );
    let names: Vec<&String> = builder.inner_assets().keys().collect();
    assert_eq!(names, vec!["MODULE_0", "MODULE_1"]);
    assert_eq!(builder.inner_assets().get("MODULE_0"), Some(&5));
    assert_eq!(builder.inner_assets().get("MODULE_1"), Some(&5));
}

#[test]
fn counter_after_n_slots_is_n_above_its_start() {
    let mut builder = builder();
    for _ in 0..3 {
        builder.unique_number();
    }
    for n in 0..25 {
        assert_eq!(builder.imports().len(), n);
        assert_eq!(builder.inner_assets().len(), n);
        builder.create_module_tuple_code(processed("id", n, "/elsewhere/a.js")).unwrap();
    }
    assert_eq!(builder.unique_number(), 28);
    assert_eq!(builder.imports()[0], "import * as id from \"MODULE_3\";\n");
    assert_eq!(builder.imports()[24], "import * as id from \"MODULE_27\";\n");
    assert_eq!(builder.inner_assets().get_index(7), Some((&"MODULE_10".to_string(), &7)));
    for i in 0..25 {
        for j in 0..i {
            assert_ne!(builder.imports()[i], builder.imports()[j]);
        }
    }
}

#[test]
fn failed_module_path_still_builds_the_slot() {
    let mut builder = builder();
    let out = builder.create_module_tuple_code(ProcessedModule {
        identifier: "id".to_string(),
        module: 4,
        path: Lookup::Failed,
        project_root: Lookup::Resolved(ROOT.to_string()),
    });
    assert_eq!(out, Err(SlotError::ModulePath));
    assert_eq!(builder.imports().len(), 1);
    assert_eq!(builder.inner_assets().get("MODULE_0"), Some(&4));
    assert_eq!(builder.unique_number(), 1);
}

#[test]
fn failed_project_root_fails_the_slot() {
    let mut builder = builder();
    let out = builder.create_module_tuple_code(ProcessedModule {
        identifier: "id".to_string(),
        module: 4,
        path: Lookup::Resolved("/project/a.js".to_string()),
        project_root: Lookup::Failed,
    });
    assert_eq!(out, Err(SlotError::ProjectRoot));
    let out = builder.create_module_tuple_code(ProcessedModule {
        identifier: "id".to_string(),
        module: 4,
        path: Lookup::Failed,
        project_root: Lookup::Failed,
    });
    assert_eq!(out, Err(SlotError::ModulePath));
    assert_eq!(builder.imports().len(), 2);
    assert_eq!(builder.counter(), 2);
}

#[test]
fn fragment_writer_strips_root_and_separator() {
    let root = Lookup::Resolved("/project".to_string());
    let inside = Lookup::Resolved("/project/app/page.tsx".to_string());
    assert_eq!(
        write_module_tuple("id", &inside, &root, '/'),
        Ok("[() => id, \"/project/app/page.tsx\", \"app/page.tsx\"]".to_string())
    );
    let windows_root = Lookup::Resolved("C:\\project".to_string());
    let windows = Lookup::Resolved("C:\\project\\app\\page.tsx".to_string());
    assert_eq!(
        write_module_tuple("id", &windows, &windows_root, '\\'),
        Ok("[() => id, \"C:\\\\project\\\\app\\\\page.tsx\", \"app\\\\page.tsx\"]".to_string())
    );
    assert_eq!(
        write_module_tuple("id", &windows, &windows_root, '/'),
        Ok("[() => id, \"C:\\\\project\\\\app\\\\page.tsx\", \"C:\\\\project\\\\app\\\\page.tsx\"]".to_string())
    );
}

#[test]
fn fragment_writer_keeps_a_path_outside_the_root() {
    let root = Lookup::Resolved("/project".to_string());
    for path in ["/framework/not-found.js", "/projects/a.js", "/project", "project/a.js", ""] {
        let quoted = serde_json::to_string(path).unwrap();
        assert_eq!(
            write_module_tuple("id", &Lookup::Resolved(path.to_string()), &root, '/'),
            Ok(format!("[() => id, {}, {}]", quoted, quoted))
        );
    }
}

#[test]
fn fragment_writer_reports_the_first_failed_lookup() {
    let path = Lookup::Resolved("/project/a.js".to_string());
    let root = Lookup::Resolved("/project".to_string());
    assert_eq!(write_module_tuple("id", &Lookup::Failed, &root, '/'), Err(SlotError::ModulePath));
    assert_eq!(write_module_tuple("id", &path, &Lookup::Failed, '/'), Err(SlotError::ProjectRoot));
    assert_eq!(
        write_module_tuple("id", &Lookup::Failed, &Lookup::Failed, '/'),
        Err(SlotError::ModulePath)
    );
}

#[test]
fn builder_writes_by_the_separator_of_this_machine() {
    assert_eq!(builder().separator(), std::path::MAIN_SEPARATOR);
}

#[test]
fn repeated_slot_has_another_fragment() {
    let mangle = |label: &str| format!("__{}__", label.replace(' ', "_").replace('#', "n"));
    let mut builder = builder();
    let path = under_root(ROOT, "app/page.tsx");
    let first_id = mangle(&builder.next_slot_label(AppDirModuleType::Page));
    let first = builder.create_module_tuple_code(processed(&first_id, 5, &path)).unwrap();
    let second_id = mangle(&builder.next_slot_label(AppDirModuleType::Page));
    let second = builder.create_module_tuple_code(processed(&second_id, 5, &path)).unwrap();
    assert_eq!(first_id, "__page_n0__");
    assert_eq!(second_id, "__page_n1__");
    assert!(first.starts_with("[() => __page_n0__, "));
    assert!(second.starts_with("[() => __page_n1__, "));
    assert_ne!(first, second);
    assert_eq!(first["[() => __page_n0__".len()..], second["[() => __page_n1__".len()..]);
}
