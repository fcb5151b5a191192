use std::path::PathBuf;

use latte::frappe::{
    generate_field_suggestions, DocTypeInfo, FieldInfo, FrappeAnalyzer, FrappeApp, FrappeProject,
    LinkInfo,
};

fn field(name: &str, kind: &str, options: Option<&str>) -> FieldInfo {
    FieldInfo {
        fieldname: name.to_string(),
        fieldtype: kind.to_string(),
        label: name.to_string(),
        options: options.map(|s| s.to_string()),
        reqd: None,
        description: None,
    }
}

fn link(target: &str) -> LinkInfo {
    LinkInfo {
        source_field: "f".to_string(),
        target_doctype: target.to_string(),
        link_type: "Link".to_string(),
    }
}

fn doctype(name: &str, module: &str, links: Vec<LinkInfo>) -> DocTypeInfo {
    DocTypeInfo {
        name: name.to_string(),
        module: module.to_string(),
        file_path: PathBuf::from("/x.json"),
        controller_path: None,
        client_script_path: None,
        fields: vec![],
        permissions: vec![],
        links,
    }
}

fn analyzer() -> FrappeAnalyzer {
    let app = FrappeApp {
        name: "shop".to_string(),
        path: PathBuf::from("/apps/shop"),
        module_dir: PathBuf::from("/apps/shop/shop"),
        hooks_path: PathBuf::from("/apps/shop/shop/hooks.py"),
        doctypes: vec![
            doctype("Sales Order", "Selling", vec![link("Customer"), link("Dynamic"), link("Item")]),
            doctype("Customer", "Selling", vec![]),
            doctype("Invoice", "Accounts", vec![link("Customer"), link("Customer")]),
        ],
        pages: vec![],
        reports: vec![],
    };
    let mut a = FrappeAnalyzer::new();
    a.set_project(FrappeProject {
        bench_path: PathBuf::from("/bench"),
        apps: vec![app],
        sites: vec![],
        default_site: None,
    });
    a
}

#[test]
fn field_types_follow_the_name() {
    let a = FrappeAnalyzer::new();
    assert_eq!(a.suggest_field_type("Customer_Email"), "Data");
    assert_eq!(a.suggest_field_type("mobile_no"), "Phone");
    assert_eq!(a.suggest_field_type("posted_on"), "Date");
    assert_eq!(a.suggest_field_type("CREATED_BY"), "Datetime");
    assert_eq!(a.suggest_field_type("unit_price"), "Currency");
    assert_eq!(a.suggest_field_type("qty"), "Float");
    assert_eq!(a.suggest_field_type("row_count"), "Int");
    assert_eq!(a.suggest_field_type("uid"), "Int");
    assert_eq!(a.suggest_field_type("remarks"), "Text");
    assert_eq!(a.suggest_field_type("customer_id"), "Link");
    assert_eq!(a.suggest_field_type("is_active"), "Check");
    assert_eq!(a.suggest_field_type("title"), "Data");
    assert!(a.get_project().is_none());
}

#[test]
fn suggestions_add_alternatives() {
    let s = generate_field_suggestions("title");
    assert_eq!(s.len(), 3);
    assert_eq!(s[0].0, "Data");
    assert_eq!(s[1].0, "Small Text");
    let s = generate_field_suggestions("customer_id");
    assert_eq!(s[1].0, "Dynamic Link");
    let s = generate_field_suggestions("weight");
    assert_eq!(s[2], ("Int".to_string(), "If whole numbers only".to_string()));
    assert_eq!(generate_field_suggestions("phone").len(), 1);
}

#[test]
fn links_come_from_link_fields() {
    let a = FrappeAnalyzer::new();
    let fields = vec![
        field("customer", "Link", Some("Customer")),
        field("party", "Dynamic Link", None),
        field("items", "Table", Some("Order Item")),
        field("orphan", "Link", None),
        field("notes", "Text", Some("x")),
    ];
    let links = a.analyze_doctype_links(&fields);
    assert_eq!(links.len(), 3);
    assert_eq!(links[0].target_doctype, "Customer");
    assert_eq!(links[1].target_doctype, "Dynamic");
    assert_eq!(links[1].link_type, "Dynamic Link");
    assert_eq!(links[2].link_type, "Table");
}

#[test]
fn doctypes_are_searched_by_name_and_module() {
    let a = analyzer();
    let names: Vec<String> = a.search_doctypes("SELL").iter().map(|d| d.name.clone()).collect();
    assert_eq!(names, vec!["Sales Order".to_string(), "Customer".to_string()]);
    let names: Vec<String> = a.search_doctypes("voice").iter().map(|d| d.name.clone()).collect();
    assert_eq!(names, vec!["Invoice".to_string()]);
    assert!(FrappeAnalyzer::new().search_doctypes("x").is_empty());
    assert!(a.get_project().is_some());
}

#[test]
fn dependencies_both_ways() {
    let a = analyzer();
    let d = a.find_doctype_dependencies("Sales Order");
    assert_eq!(d.dependencies, vec!["Customer".to_string(), "Item".to_string()]);
    assert!(d.dependents.is_empty());
    let d = a.find_doctype_dependencies("Customer");
    assert!(d.dependencies.is_empty());
    assert_eq!(
        d.dependents,
        vec!["Sales Order".to_string(), "Invoice".to_string(), "Invoice".to_string()]
    );
}

use latte::frappe::{
    app_names, file_stem_of, is_site_dir_name, is_workspace_layout, module_or_unknown, PageInfo,
    PermissionInfo, ReportInfo,
};

#[test]
fn scanning_rules() {
    assert!(is_workspace_layout(true, true, false, true));
    assert!(!is_workspace_layout(true, false, true, true));
    assert!(!is_workspace_layout(true, true, false, false));
    assert_eq!(
        app_names("frappe\n\n# comment\n  erpnext  \r\nshop"),
        vec!["frappe".to_string(), "erpnext".to_string(), "shop".to_string()]
    );
    assert_eq!(file_stem_of("Sales Order Item"), "sales_order_item");
    assert!(is_site_dir_name("site1.local"));
    assert!(!is_site_dir_name("assets"));
    assert!(!is_site_dir_name(".git"));
    assert_eq!(module_or_unknown(None), "Unknown");
}

#[test]
fn records_take_defaults() {
    let f = FieldInfo::from_values(Some("qty".to_string()), None, None, None, Some(4294967297), None);
    assert_eq!(f.fieldtype, "Data");
    assert_eq!(f.label, "qty");
    assert_eq!(f.reqd, Some(1));
    let f = FieldInfo::from_values(None, Some("Int".to_string()), Some("L".to_string()), None, None, None);
    assert_eq!(f.fieldname, "");
    assert_eq!(f.label, "L");
    let p = PermissionInfo::from_values(None, Some(1), None, Some(0), None);
    assert_eq!(p.role, "");
    assert_eq!(p.read, Some(1));
    assert_eq!(p.create, Some(0));
    let page = PageInfo::from_values("dash", None, None, Some("/d".to_string()), PathBuf::from("/p.json"));
    assert_eq!(page.title, "dash");
    assert_eq!(page.module, "Unknown");
    assert_eq!(page.route, "/d");
    let rep = ReportInfo::from_values("Sales", None, Some("Selling".to_string()), None, PathBuf::from("/r.json"));
    assert_eq!(rep.report_type, "Report Builder");
    assert_eq!(rep.module, "Selling");
}
