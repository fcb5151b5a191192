//! A description of a bench project (apps, doctypes, pages, reports, sites)
//! and the questions answered from it.
use vstd::prelude::*;

use std::path::PathBuf;

use crate::text::{
    contains_seq, contains_str, ends_with_seq, ends_with_str, lines_seq, lowercase_of, same_text,
    split_lines, starts_with_seq, starts_with_str, strings_view, to_lowercase, trim_seq, trim_text,
};

verus! {

#[verifier::external_type_specification]
#[verifier::external_body]
pub struct ExPathBuf(PathBuf);

#[derive(Debug, Clone)]
pub struct FieldInfo {
    pub fieldname: String,
    pub fieldtype: String,
    pub label: String,
    pub options: Option<String>,
    pub reqd: Option<i32>,
    pub description: Option<String>,
}

#[derive(Debug, Clone)]
pub struct PermissionInfo {
    pub role: String,
    pub read: Option<i32>,
    pub write: Option<i32>,
    pub create: Option<i32>,
    pub delete: Option<i32>,
}

/// A field of one doctype that refers to another doctype.
#[derive(Debug, Clone)]
pub struct LinkInfo {
    pub source_field: String,
    pub target_doctype: String,
    pub link_type: String,
}

pub ghost struct LinkView {
    pub source_field: Seq<char>,
    pub target_doctype: Seq<char>,
    pub link_type: Seq<char>,
}

impl View for LinkInfo {
    type V = LinkView;

    open spec fn view(&self) -> LinkView {
        LinkView {
            source_field: self.source_field@,
            target_doctype: self.target_doctype@,
            link_type: self.link_type@,
        }
    }
}

pub open spec fn links_view(v: Seq<LinkInfo>) -> Seq<LinkView> {
    v.map_values(|l: LinkInfo| l@)
}

#[derive(Debug)]
pub struct DocTypeInfo {
    pub name: String,
    pub module: String,
    pub file_path: PathBuf,
    pub controller_path: Option<PathBuf>,
    pub client_script_path: Option<PathBuf>,
    pub fields: Vec<FieldInfo>,
    pub permissions: Vec<PermissionInfo>,
    pub links: Vec<LinkInfo>,
}

#[derive(Debug)]
pub struct PageInfo {
    pub name: String,
    pub title: String,
    pub module: String,
    pub route: String,
    pub file_path: PathBuf,
}

#[derive(Debug)]
pub struct ReportInfo {
    pub name: String,
    pub report_type: String,
    pub module: String,
    pub file_path: PathBuf,
    pub query_type: Option<String>,
}

#[derive(Debug)]
pub struct FrappeApp {
    pub name: String,
    pub path: PathBuf,
    pub module_dir: PathBuf,
    pub hooks_path: PathBuf,
    pub doctypes: Vec<DocTypeInfo>,
    pub pages: Vec<PageInfo>,
    pub reports: Vec<ReportInfo>,
}

#[derive(Debug)]
pub struct SiteInfo {
    pub name: String,
    pub path: PathBuf,
    pub config_path: PathBuf,
    pub database: Option<String>,
}

#[derive(Debug)]
pub struct FrappeProject {
    pub bench_path: PathBuf,
    pub apps: Vec<FrappeApp>,
    pub sites: Vec<SiteInfo>,
    pub default_site: Option<String>,
}

/// The doctypes that refer to a doctype, and those it refers to.
#[derive(Debug, Clone)]
pub struct DocTypeDependencies {
    pub dependencies: Vec<String>,
    pub dependents: Vec<String>,
}

/// `s` with every space replaced by an underscore.
pub open spec fn spaces_to_underscores(s: Seq<char>) -> Seq<char> {
    s.map_values(|c: char| if c == ' ' { '_' } else { c })
}

/// The stem of the files that describe the doctype or report `name`.
pub open spec fn file_stem(name: Seq<char>) -> Seq<char> {
    spaces_to_underscores(lowercase_of(name))
}

/// A line of `apps.txt` that names an app: neither blank nor a comment.
pub open spec fn is_app_line(t: Seq<char>) -> bool {
    t.len() > 0 && t[0] != '#'
}

/// The app names that `apps.txt` lists, trimmed, in order.
pub open spec fn app_names_in(lines: Seq<Seq<char>>) -> Seq<Seq<char>>
    decreases lines.len(),
{
    if lines.len() == 0 {
        Seq::empty()
    } else {
        let prev = app_names_in(lines.drop_last());
        if is_app_line(trim_seq(lines.last())) {
            prev.push(trim_seq(lines.last()))
        } else {
            prev
        }
    }
}

pub open spec fn text_or(v: Option<String>, default: Seq<char>) -> Seq<char> {
    match v {
        Some(t) => t@,
        None => default,
    }
}

/// An `i64` flag as the 32 bits a record keeps of it.
pub open spec fn flag_of(v: Option<i64>) -> Option<i32> {
    match v {
        Some(n) => Some(n as i32),
        None => None,
    }
}

/// The field type that a field's name suggests, given the name in lower case.
pub open spec fn field_type_for(n: Seq<char>) -> Seq<char> {
    if contains_seq(n, "email"@) {
        "Data"@
    } else if contains_seq(n, "phone"@) || contains_seq(n, "mobile"@) {
        "Phone"@
    } else if contains_seq(n, "date"@) || ends_with_seq(n, "_on"@) || contains_seq(n, "birth"@)
        || contains_seq(n, "expiry"@) {
        "Date"@
    } else if contains_seq(n, "time"@) || contains_seq(n, "created"@) || contains_seq(
        n,
        "modified"@,
    ) || contains_seq(n, "timestamp"@) {
        "Datetime"@
    } else if contains_seq(n, "amount"@) || contains_seq(n, "price"@) || contains_seq(n, "cost"@)
        || contains_seq(n, "rate"@) {
        "Currency"@
    } else if contains_seq(n, "percentage"@) || contains_seq(n, "ratio"@) || contains_seq(
        n,
        "weight"@,
    ) || contains_seq(n, "qty"@) {
        "Float"@
    } else if contains_seq(n, "count"@) || contains_seq(n, "number"@) || (contains_seq(n, "id"@)
        && !contains_seq(n, "_id"@)) {
        "Int"@
    } else if contains_seq(n, "description"@) || contains_seq(n, "comment"@) || contains_seq(
        n,
        "note"@,
    ) || contains_seq(n, "remark"@) {
        "Text"@
    } else if ends_with_seq(n, "_id"@) || contains_seq(n, "reference"@) {
        "Link"@
    } else if starts_with_seq(n, "is_"@) || starts_with_seq(n, "has_"@) || contains_seq(
        n,
        "enabled"@,
    ) || contains_seq(n, "disabled"@) {
        "Check"@
    } else {
        "Data"@
    }
}

/// The suggested type first, with its reason, then common alternatives.
pub open spec fn suggestions_for(t: Seq<char>) -> Seq<(Seq<char>, Seq<char>)> {
    seq![(t, "Primary suggestion based on field name"@)] + if t == "Data"@ {
        seq![("Small Text"@, "For longer text content"@), ("Text"@, "For very long text"@)]
    } else if t == "Link"@ {
        seq![
            ("Dynamic Link"@, "For variable DocType links"@),
            ("Data"@, "If not linking to DocType"@),
        ]
    } else if t == "Float"@ {
        seq![("Currency"@, "If represents money"@), ("Int"@, "If whole numbers only"@)]
    } else {
        Seq::empty()
    }
}

pub open spec fn pairs_view(v: Seq<(String, String)>) -> Seq<(Seq<char>, Seq<char>)> {
    v.map_values(|p: (String, String)| (p.0@, p.1@))
}

/// The link that a field declares, if any.
pub open spec fn link_of(f: FieldInfo) -> Option<LinkView> {
    if f.fieldtype@ == "Link"@ {
        match f.options {
            Some(t) => Some(
                LinkView { source_field: f.fieldname@, target_doctype: t@, link_type: "Link"@ },
            ),
            None => None,
        }
    } else if f.fieldtype@ == "Dynamic Link"@ {
        Some(
            LinkView {
                source_field: f.fieldname@,
                target_doctype: "Dynamic"@,
                link_type: "Dynamic Link"@,
            },
        )
    } else if f.fieldtype@ == "Table"@ {
        match f.options {
            Some(t) => Some(
                LinkView { source_field: f.fieldname@, target_doctype: t@, link_type: "Table"@ },
            ),
            None => None,
        }
    } else {
        None
    }
}

/// The links that `fields` declare, in order.
pub open spec fn links_of(fields: Seq<FieldInfo>) -> Seq<LinkView>
    decreases fields.len(),
{
    if fields.len() == 0 {
        Seq::empty()
    } else {
        let prev = links_of(fields.drop_last());
        match link_of(fields.last()) {
            Some(l) => prev.push(l),
            None => prev,
        }
    }
}

/// Every doctype of `apps`, app by app.
pub open spec fn doctypes_of(apps: Seq<FrappeApp>) -> Seq<DocTypeInfo>
    decreases apps.len(),
{
    if apps.len() == 0 {
        Seq::empty()
    } else {
        doctypes_of(apps.drop_last()) + apps.last().doctypes@
    }
}

/// The doctype's name or module contains the query, ignoring case.
pub open spec fn doctype_matches(d: DocTypeInfo, query: Seq<char>) -> bool {
    contains_seq(lowercase_of(d.name@), lowercase_of(query)) || contains_seq(
        lowercase_of(d.module@),
        lowercase_of(query),
    )
}

pub open spec fn matching_doctypes(docs: Seq<DocTypeInfo>, query: Seq<char>) -> Seq<DocTypeInfo>
    decreases docs.len(),
{
    if docs.len() == 0 {
        Seq::empty()
    } else {
        let prev = matching_doctypes(docs.drop_last(), query);
        if doctype_matches(docs.last(), query) {
            prev.push(docs.last())
        } else {
            prev
        }
    }
}

/// The targets of the links that do not go to a dynamic doctype.
pub open spec fn fixed_targets(links: Seq<LinkInfo>) -> Seq<Seq<char>>
    decreases links.len(),
{
    if links.len() == 0 {
        Seq::empty()
    } else {
        let prev = fixed_targets(links.drop_last());
        if links.last().target_doctype@ != "Dynamic"@ {
            prev.push(links.last().target_doctype@)
        } else {
            prev
        }
    }
}

/// What the last doctype named `name` with fixed links refers to.
pub open spec fn dependencies_of(docs: Seq<DocTypeInfo>, name: Seq<char>) -> Seq<Seq<char>>
    decreases docs.len(),
{
    if docs.len() == 0 {
        Seq::empty()
    } else if docs.last().name@ == name && fixed_targets(docs.last().links@).len() > 0 {
        fixed_targets(docs.last().links@)
    } else {
        dependencies_of(docs.drop_last(), name)
    }
}

/// `who` once for each link in `links` to `name`.
pub open spec fn referrers(links: Seq<LinkInfo>, name: Seq<char>, who: Seq<char>) -> Seq<Seq<char>>
    decreases links.len(),
{
    if links.len() == 0 {
        Seq::empty()
    } else {
        let prev = referrers(links.drop_last(), name, who);
        if links.last().target_doctype@ == name {
            prev.push(who)
        } else {
            prev
        }
    }
}

/// The doctypes that link to `name`, once per link.
pub open spec fn dependents_of(docs: Seq<DocTypeInfo>, name: Seq<char>) -> Seq<Seq<char>>
    decreases docs.len(),
{
    if docs.len() == 0 {
        Seq::empty()
    } else {
        dependents_of(docs.drop_last(), name) + referrers(
            docs.last().links@,
            name,
            docs.last().name@,
        )
    }
}

/// Answers questions about the bench project it was given.
pub struct FrappeAnalyzer {
    project: Option<FrappeProject>,
}

impl FrappeAnalyzer {
    pub closed spec fn project(&self) -> Option<FrappeProject> {
        self.project
    }

    /// The doctypes of the project, app by app; none without a project.
    pub open spec fn doctypes(&self) -> Seq<DocTypeInfo> {
        match self.project() {
            Some(p) => doctypes_of(p.apps@),
            None => Seq::empty(),
        }
    }

    /// An analyzer without a project.
    pub fn new() -> (r: Self)
        ensures
            r.project() is None,
    {
        FrappeAnalyzer { project: None }
    }

    /// Takes `project` as the project to answer about.
    pub fn set_project(&mut self, project: FrappeProject)
        ensures
            final(self).project() == Some(project),
    {
        self.project = Some(project);
    }

    /// The project, once one was given.
    pub fn get_project(&self) -> (r: Option<&FrappeProject>)
        ensures
            match r {
                Some(p) => self.project() == Some(*p),
                None => self.project() is None,
            },
    {
        match &self.project {
            Some(p) => Some(p),
            None => None,
        }
    }

    /// The field type that a name in lower case suggests.
    pub fn field_type_for_lowercase(n: &str) -> (r: String)
        ensures
            r@ == field_type_for(n@),
    {
        let t = if contains_str(n, "email") {
            "Data"
        } else if contains_str(n, "phone") || contains_str(n, "mobile") {
            "Phone"
        } else if contains_str(n, "date") || ends_with_str(n, "_on") || contains_str(n, "birth")
            || contains_str(n, "expiry") {
            "Date"
        } else if contains_str(n, "time") || contains_str(n, "created") || contains_str(
            n,
            "modified",
        ) || contains_str(n, "timestamp") {
            "Datetime"
        } else if contains_str(n, "amount") || contains_str(n, "price") || contains_str(n, "cost")
            || contains_str(n, "rate") {
            "Currency"
        } else if contains_str(n, "percentage") || contains_str(n, "ratio") || contains_str(
            n,
            "weight",
        ) || contains_str(n, "qty") {
            "Float"
        } else if contains_str(n, "count") || contains_str(n, "number") || (contains_str(n, "id")
            && !contains_str(n, "_id")) {
            "Int"
        } else if contains_str(n, "description") || contains_str(n, "comment") || contains_str(
            n,
            "note",
        ) || contains_str(n, "remark") {
            "Text"
        } else if ends_with_str(n, "_id") || contains_str(n, "reference") {
            "Link"
        } else if starts_with_str(n, "is_") || starts_with_str(n, "has_") || contains_str(
            n,
            "enabled",
        ) || contains_str(n, "disabled") {
            "Check"
        } else {
            "Data"
        };
        t.to_owned()
    }

    /// The field type that a field's name suggests, ignoring case.
    pub fn suggest_field_type(&self, field_name: &str) -> (r: String)
        ensures
            r@ == field_type_for(lowercase_of(field_name@)),
    {
        let lower = to_lowercase(field_name);
        Self::field_type_for_lowercase(lower.as_str())
    }

    /// The links that `fields` declare, in order.
    pub fn analyze_doctype_links(&self, fields: &[FieldInfo]) -> (r: Vec<LinkInfo>)
        ensures
            links_view(r@) == links_of(fields@),
    {
        let mut links: Vec<LinkInfo> = Vec::new();
        let mut i: usize = 0;
        while i < fields.len()
            invariant
                i <= fields@.len(),
                links_view(links@) == links_of(fields@.subrange(0, i as int)),
            decreases fields@.len() - i,
        {
            let f = &fields[i];
            let ghost before = links@;
            assert(fields@.subrange(0, i + 1).drop_last() =~= fields@.subrange(0, i as int));
            let kind = f.fieldtype.as_str();
            if same_text(kind, "Link") {
                match &f.options {
                    Some(target) => {
                        let l = LinkInfo {
                            source_field: f.fieldname.clone(),
                            target_doctype: target.clone(),
                            link_type: "Link".to_owned(),
                        };
                        links.push(l);
                        assert(links_view(links@) =~= links_view(before).push(l@));
                    },
                    None => {},
                }
            } else if same_text(kind, "Dynamic Link") {
                let l = LinkInfo {
                    source_field: f.fieldname.clone(),
                    target_doctype: "Dynamic".to_owned(),
                    link_type: "Dynamic Link".to_owned(),
                };
                links.push(l);
                assert(links_view(links@) =~= links_view(before).push(l@));
            } else if same_text(kind, "Table") {
                match &f.options {
                    Some(target) => {
                        let l = LinkInfo {
                            source_field: f.fieldname.clone(),
                            target_doctype: target.clone(),
                            link_type: "Table".to_owned(),
                        };
                        links.push(l);
                        assert(links_view(links@) =~= links_view(before).push(l@));
                    },
                    None => {},
                }
            }
            i = i + 1;
        }
        assert(fields@.subrange(0, fields@.len() as int) =~= fields@);
        links
    }

    /// Every doctype of the project, app by app.
    fn all_doctypes(&self) -> (r: Vec<&DocTypeInfo>)
        ensures
            r@.map_values(|d: &DocTypeInfo| *d) == self.doctypes(),
    {
        let mut r: Vec<&DocTypeInfo> = Vec::new();
        let project = match &self.project {
            Some(p) => p,
            None => {
                assert(r@.map_values(|d: &DocTypeInfo| *d) =~= Seq::<DocTypeInfo>::empty());
                return r;
            },
        };
        let apps = &project.apps;
        let mut a: usize = 0;
        assert(r@.map_values(|d: &DocTypeInfo| *d) =~= doctypes_of(apps@.subrange(0, 0)));
        while a < apps.len()
            invariant
                a <= apps@.len(),
                r@.map_values(|d: &DocTypeInfo| *d) == doctypes_of(apps@.subrange(0, a as int)),
            decreases apps@.len() - a,
        {
            let docs = &apps[a].doctypes;
            let ghost start = r@.map_values(|d: &DocTypeInfo| *d);
            let mut k: usize = 0;
            assert(start + docs@.subrange(0, 0) =~= start);
            while k < docs.len()
                invariant
                    k <= docs@.len(),
                    r@.map_values(|d: &DocTypeInfo| *d) == start + docs@.subrange(0, k as int),
                decreases docs@.len() - k,
            {
                let ghost before = r@;
                r.push(&docs[k]);
                assert(r@.map_values(|d: &DocTypeInfo| *d) =~= before.map_values(
                    |d: &DocTypeInfo| *d,
                ).push(docs@[k as int]));
                assert(start + docs@.subrange(0, k + 1) =~= (start + docs@.subrange(
                    0,
                    k as int,
                )).push(docs@[k as int]));
                k = k + 1;
            }
            assert(apps@.subrange(0, a + 1).drop_last() =~= apps@.subrange(0, a as int));
            assert(docs@.subrange(0, docs@.len() as int) =~= docs@);
            a = a + 1;
        }
        assert(apps@.subrange(0, apps@.len() as int) =~= apps@);
        r
    }

    /// The doctypes whose name or module contains `query`, ignoring case.
    pub fn search_doctypes(&self, query: &str) -> (r: Vec<&DocTypeInfo>)
        ensures
            r@.map_values(|d: &DocTypeInfo| *d) == matching_doctypes(self.doctypes(), query@),
    {
        let all = self.all_doctypes();
        let ghost docs = self.doctypes();
        let query_lower = to_lowercase(query);
        let mut r: Vec<&DocTypeInfo> = Vec::new();
        let mut i: usize = 0;
        while i < all.len()
            invariant
                i <= all@.len(),
                all@.map_values(|d: &DocTypeInfo| *d) == docs,
                query_lower@ == lowercase_of(query@),
                r@.map_values(|d: &DocTypeInfo| *d) == matching_doctypes(
                    docs.subrange(0, i as int),
                    query@,
                ),
            decreases all@.len() - i,
        {
            let d = all[i];
            assert(docs.subrange(0, i + 1).drop_last() =~= docs.subrange(0, i as int));
            assert(docs[i as int] == *d);
            let name_lower = to_lowercase(d.name.as_str());
            let module_lower = to_lowercase(d.module.as_str());
            if contains_str(name_lower.as_str(), query_lower.as_str()) || contains_str(
                module_lower.as_str(),
                query_lower.as_str(),
            ) {
                let ghost before = r@;
                r.push(d);
                assert(r@.map_values(|d: &DocTypeInfo| *d) =~= before.map_values(
                    |d: &DocTypeInfo| *d,
                ).push(*d));
            }
            i = i + 1;
        }
        assert(docs.subrange(0, all@.len() as int) =~= docs);
        r
    }

    /// What the doctype named `doctype_name` links to, and which doctypes
    /// link to it.
    pub fn find_doctype_dependencies(&self, doctype_name: &str) -> (r: DocTypeDependencies)
        ensures
            strings_view(r.dependencies@) == dependencies_of(self.doctypes(), doctype_name@),
            strings_view(r.dependents@) == dependents_of(self.doctypes(), doctype_name@),
    {
        let all = self.all_doctypes();
        let ghost docs = self.doctypes();
        let mut dependencies: Vec<String> = Vec::new();
        let mut dependents: Vec<String> = Vec::new();
        let mut i: usize = 0;
        assert(strings_view(dependents@) =~= Seq::<Seq<char>>::empty());
        assert(strings_view(dependencies@) =~= Seq::<Seq<char>>::empty());
        while i < all.len()
            invariant
                i <= all@.len(),
                all@.map_values(|d: &DocTypeInfo| *d) == docs,
                strings_view(dependencies@) == dependencies_of(
                    docs.subrange(0, i as int),
                    doctype_name@,
                ),
                strings_view(dependents@) == dependents_of(docs.subrange(0, i as int), doctype_name@),
            decreases all@.len() - i,
        {
            let d = all[i];
            assert(docs.subrange(0, i + 1).drop_last() =~= docs.subrange(0, i as int));
            assert(docs[i as int] == *d);
            let links = &d.links;
            let is_target = same_text(d.name.as_str(), doctype_name);
            let mut deps: Vec<String> = Vec::new();
            let ghost start = strings_view(dependents@);
            let mut k: usize = 0;
            assert(strings_view(deps@) =~= fixed_targets(links@.subrange(0, 0)));
            assert(start =~= start + referrers(links@.subrange(0, 0), doctype_name@, d.name@));
            while k < links.len()
                invariant
                    k <= links@.len(),
                    strings_view(deps@) == fixed_targets(links@.subrange(0, k as int)),
                    strings_view(dependents@) == start + referrers(
                        links@.subrange(0, k as int),
                        doctype_name@,
                        d.name@,
                    ),
                decreases links@.len() - k,
            {
                let l = &links[k];
                assert(links@.subrange(0, k + 1).drop_last() =~= links@.subrange(0, k as int));
                if !same_text(l.target_doctype.as_str(), "Dynamic") {
                    let ghost before = deps@;
                    deps.push(l.target_doctype.clone());
                    assert(strings_view(deps@) =~= strings_view(before).push(l.target_doctype@));
                }
                if same_text(l.target_doctype.as_str(), doctype_name) {
                    let ghost before = dependents@;
                    dependents.push(d.name.clone());
                    assert(strings_view(dependents@) =~= strings_view(before).push(d.name@));
                }
                k = k + 1;
            }
            assert(links@.subrange(0, links@.len() as int) =~= links@);
            if is_target && deps.len() > 0 {
                dependencies = deps;
            }
            i = i + 1;
        }
        assert(docs.subrange(0, all@.len() as int) =~= docs);
        DocTypeDependencies { dependencies, dependents }
    }
}

/// The text, or `default` when there is none.
fn or_default(v: Option<String>, default: &str) -> (r: String)
    ensures
        r@ == text_or(v, default@),
{
    match v {
        Some(t) => t,
        None => default.to_owned(),
    }
}

fn flag(v: Option<i64>) -> (r: Option<i32>)
    ensures
        r == flag_of(v),
{
    match v {
        Some(n) => Some(#[verifier::truncate] (n as i32)),
        None => None,
    }
}

/// A bench directory holds `apps.txt`, a `sites` directory, and a `Procfile`
/// or a `bench-repo`.
pub fn is_workspace_layout(
    has_apps_txt: bool,
    has_sites_dir: bool,
    has_procfile: bool,
    has_bench_repo: bool,
) -> (r: bool)
    ensures
        r == (has_apps_txt && has_sites_dir && (has_procfile || has_bench_repo)),
{
    has_apps_txt && has_sites_dir && (has_procfile || has_bench_repo)
}

/// The app names listed in the text of `apps.txt`.
pub fn app_names(apps_txt: &str) -> (r: Vec<String>)
    ensures
        strings_view(r@) == app_names_in(lines_seq(apps_txt@)),
{
    let lines = split_lines(apps_txt);
    let ghost ls = strings_view(lines@);
    let mut r: Vec<String> = Vec::new();
    let mut i: usize = 0;
    assert(strings_view(r@) =~= app_names_in(ls.subrange(0, 0)));
    while i < lines.len()
        invariant
            i <= lines@.len(),
            ls == strings_view(lines@),
            strings_view(r@) == app_names_in(ls.subrange(0, i as int)),
        decreases lines@.len() - i,
    {
        assert(ls.subrange(0, i + 1).drop_last() =~= ls.subrange(0, i as int));
        assert(ls[i as int] == lines@[i as int]@);
        let name = trim_text(lines[i].as_str());
        let is_comment = starts_with_str(name.as_str(), "#");
        proof {
            reveal_strlit("#");
            if name@.len() > 0 && name@[0] == '#' {
                assert(name@.subrange(0, 1) =~= "#"@);
            }
            if is_comment {
                assert(name@.subrange(0, 1)[0] == "#"@[0]);
            }
        }
        if !name.as_str().is_empty() && !is_comment {
            let ghost before = r@;
            r.push(name);
            assert(strings_view(r@) =~= strings_view(before).push(name@));
        }
        i = i + 1;
    }
    assert(ls.subrange(0, ls.len() as int) =~= ls);
    r
}

/// The stem of the files that describe the doctype or report `name`: lower
/// case, with underscores for spaces.
pub fn file_stem_of(name: &str) -> (r: String)
    ensures
        r@ == file_stem(name@),
{
    let lower = to_lowercase(name);
    let n = lower.as_str().unicode_len();
    let mut r = String::new();
    let mut i: usize = 0;
    while i < n
        invariant
            n == lower@.len(),
            i <= n,
            r@ == spaces_to_underscores(lower@.subrange(0, i as int)),
        decreases n - i,
    {
        let c = lower.as_str().get_char(i);
        let ghost before = r@;
        if c == ' ' {
            r.append("_");
            proof {
                reveal_strlit("_");
            }
            assert("_"@ =~= seq!['_']);
            assert(r@ =~= before + seq!['_']);
        } else {
            r.append(lower.as_str().substring_char(i, i + 1));
            assert(lower@.subrange(i as int, i + 1) =~= seq![c]);
            assert(r@ =~= before + seq![c]);
        }
        assert(spaces_to_underscores(lower@.subrange(0, i + 1)) =~= spaces_to_underscores(
            lower@.subrange(0, i as int),
        ).push(if c == ' ' { '_' } else { c }));
        assert(lower@.subrange(i as int, i + 1) =~= seq![c]);
        i = i + 1;
    }
    assert(lower@.subrange(0, n as int) =~= lower@);
    r
}

/// A directory under `sites` that holds a site: not `assets`, not hidden.
pub fn is_site_dir_name(name: &str) -> (r: bool)
    ensures
        r == !(name@ == "assets"@ || starts_with_seq(name@, "."@)),
{
    !(same_text(name, "assets") || starts_with_str(name, "."))
}

impl FieldInfo {
    /// A field from the values its JSON description gives: no name is the
    /// empty name, no type is `Data`, and no label is the name.
    pub fn from_values(
        fieldname: Option<String>,
        fieldtype: Option<String>,
        label: Option<String>,
        options: Option<String>,
        reqd: Option<i64>,
        description: Option<String>,
    ) -> (r: FieldInfo)
        ensures
            r.fieldname@ == text_or(fieldname, Seq::empty()),
            r.fieldtype@ == text_or(fieldtype, "Data"@),
            r.label@ == text_or(label, text_or(fieldname, Seq::empty())),
            r.options == options,
            r.reqd == flag_of(reqd),
            r.description == description,
    {
        let name = or_default(fieldname, "");
        proof {
            reveal_strlit("");
        }
        let label = match label {
            Some(l) => l,
            None => name.clone(),
        };
        FieldInfo {
            fieldname: name,
            fieldtype: or_default(fieldtype, "Data"),
            label,
            options,
            reqd: flag(reqd),
            description,
        }
    }
}

impl PermissionInfo {
    /// A permission rule from the values its JSON description gives.
    pub fn from_values(
        role: Option<String>,
        read: Option<i64>,
        write: Option<i64>,
        create: Option<i64>,
        delete: Option<i64>,
    ) -> (r: PermissionInfo)
        ensures
            r.role@ == text_or(role, Seq::empty()),
            r.read == flag_of(read),
            r.write == flag_of(write),
            r.create == flag_of(create),
            r.delete == flag_of(delete),
    {
        let role = or_default(role, "");
        proof {
            reveal_strlit("");
        }
        PermissionInfo {
            role,
            read: flag(read),
            write: flag(write),
            create: flag(create),
            delete: flag(delete),
        }
    }
}

impl PageInfo {
    /// A page from the values its JSON description gives: no title or route
    /// is the page's name, and no module is `Unknown`.
    pub fn from_values(
        name: &str,
        title: Option<String>,
        module: Option<String>,
        route: Option<String>,
        file_path: PathBuf,
    ) -> (r: PageInfo)
        ensures
            r.name@ == name@,
            r.title@ == text_or(title, name@),
            r.module@ == text_or(module, "Unknown"@),
            r.route@ == text_or(route, name@),
            r.file_path == file_path,
    {
        PageInfo {
            name: name.to_owned(),
            title: or_default(title, name),
            module: or_default(module, "Unknown"),
            route: or_default(route, name),
            file_path,
        }
    }
}

impl ReportInfo {
    /// A report from the values its JSON description gives: no type is
    /// `Report Builder`, and no module is `Unknown`.
    pub fn from_values(
        name: &str,
        report_type: Option<String>,
        module: Option<String>,
        query_type: Option<String>,
        file_path: PathBuf,
    ) -> (r: ReportInfo)
        ensures
            r.name@ == name@,
            r.report_type@ == text_or(report_type, "Report Builder"@),
            r.module@ == text_or(module, "Unknown"@),
            r.query_type == query_type,
            r.file_path == file_path,
    {
        ReportInfo {
            name: name.to_owned(),
            report_type: or_default(report_type, "Report Builder"),
            module: or_default(module, "Unknown"),
            query_type,
            file_path,
        }
    }
}

/// The module a doctype's JSON names, or `Unknown`.
pub fn module_or_unknown(module: Option<String>) -> (r: String)
    ensures
        r@ == text_or(module, "Unknown"@),
{
    or_default(module, "Unknown")
}

/// The field types to offer for a field with this name, best first, each
/// with the reason.
pub fn generate_field_suggestions(field_name: &str) -> (r: Vec<(String, String)>)
    ensures
        pairs_view(r@) == suggestions_for(field_type_for(lowercase_of(field_name@))),
{
    let analyzer = FrappeAnalyzer::new();
    let suggested = analyzer.suggest_field_type(field_name);
    let mut r: Vec<(String, String)> = Vec::new();
    let is_data = same_text(suggested.as_str(), "Data");
    let is_link = same_text(suggested.as_str(), "Link");
    let is_float = same_text(suggested.as_str(), "Float");
    r.push((suggested.clone(), "Primary suggestion based on field name".to_owned()));
    if is_data {
        r.push(("Small Text".to_owned(), "For longer text content".to_owned()));
        r.push(("Text".to_owned(), "For very long text".to_owned()));
    } else if is_link {
        r.push(("Dynamic Link".to_owned(), "For variable DocType links".to_owned()));
        r.push(("Data".to_owned(), "If not linking to DocType".to_owned()));
    } else if is_float {
        r.push(("Currency".to_owned(), "If represents money".to_owned()));
        r.push(("Int".to_owned(), "If whole numbers only".to_owned()));
    }
    assert(pairs_view(r@) =~= suggestions_for(suggested@));
    r
}

} // verus!
