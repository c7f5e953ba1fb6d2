//! The store of named text templates: which files of its directory are
//! templates, what saving one writes, and which built-in templates a first
//! run adds.

use vstd::prelude::*;
use crate::error::{Error, ErrorView};
use crate::paths::{
    extension_of, file_extension, file_stem, join, join_spec, stem_of, DOT,
};
use crate::text::same_text;

verus! {

/// The extension of the file that backs a template.
pub const TEMPLATE_EXTENSION: &'static str = "txt";

/// The name of the empty file whose presence says that the built-in
/// templates were added once.
pub const DEFAULTS_SENTINEL_FILE: &'static str = ".defaults_initialized";

/// The directory of this product below the user's documents.
pub const PRODUCT_DIRECTORY: &'static str = "FileArchitect";

/// The directory of the store below the product's directory.
pub const TEMPLATES_DIRECTORY: &'static str = "Templates";

/// The name given to a template whose file name is not text.
pub const UNNAMED_TEMPLATE: &'static str = "Unnamed Template";

/// What the error names when the platform knows no documents directory.
pub const DOCUMENTS_SUBJECT: &'static str = "documents directory";

pub const WEB_PROJECT_NAME: &'static str = "Web Project";

pub const SCHOOL_CLASS_NAME: &'static str = "School Class";

pub const VIDEO_PROJECT_NAME: &'static str = "Video Project";

pub const GRAPHIC_DESIGN_NAME: &'static str = "Graphic Design Project";

pub const WEB_PROJECT_TEMPLATE: &'static str =
    "---\norder: 1\n---\nproject-name\n\tsrc\n\t\tcomponents\n\t\t\tButton.jsx\n\t\t\tHeader.jsx\n\t\t\tFooter.jsx\n\t\tpages\n\t\t\tHome.jsx\n\t\t\tAbout.jsx\n\t\t\tContact.jsx\n\t\tstyles\n\t\t\tglobal.css\n\t\tApp.jsx\n\t\tindex.js\n\tpublic\n\t\tindex.html\n\tpackage.json\n\tREADME.md";

pub const SCHOOL_CLASS_TEMPLATE: &'static str =
    "---\norder: 2\n---\nSchool class\n\tLectures\n\t\tLecture_1\n\t\tLecture_2\n\t\tLecture_3\n\tLabs\n\t\tLab_1\n\t\tLab_2\n\tAssignments\n\t\tAssignment_1\n\t\tAssignment_2\n\tExams\n\t\tMidterm exam\n\t\tFinal exam\n\tReadings\n\tResources";

pub const VIDEO_PROJECT_TEMPLATE: &'static str =
    "---\norder: 3\n---\nvideo-project\n\tvideo-footage\n\t\traw-footage\n\t\tedited-footage\n\taudio\n\t\tmusic\n\t\tsound-effects\n\tgraphics\n\t\tlogos\n\t\tlower-thirds\n\tscripts\n\t\tscene-descriptions\n\t\tdialogue\n\tproject-files\n\t\tfinal-video\n\t\tproject-backups\n\treferences\n\t\tcolor-palettes\n\t\tmood-boards\n\tteam\n\t\ttasks\n\t\tnotes";

pub const GRAPHIC_DESIGN_TEMPLATE: &'static str =
    "---\norder: 4\n---\ngraphic-design-project\n\t01_project-documents\n\t\tbrief\n\t\tmood-board\n\t\tnotes\n\t02_work-files\n\t\tmockups\n\t\tvectors\n\t\t\tlogos\n\t\t\tillustrations\n\t03_deliverables\n\t\tstyle-guide\n\t\tpresentation\n\t\t\tslides\n\t\t\tpresentation_01.pdf";

/// A named blueprint of a hierarchy of folders and files.
#[derive(Clone, Debug, PartialEq, Eq)]
pub struct Template {
    pub name: String,
    pub content: String,
}

/// One child of the store's directory as it was read.
#[derive(Clone, Debug, PartialEq, Eq)]
pub struct StoreFile {
    /// The name of the file, with its extension.
    pub file_name: String,
    /// Whether the base name is text, so that `file_name` gives it exactly.
    pub name_is_text: bool,
    /// The content of the file, or nothing where it is not readable text.
    pub content: Option<String>,
}

/// One file to create or overwrite in the store's directory.
#[derive(Clone, Debug, PartialEq, Eq)]
pub struct TemplateWrite {
    pub file_name: String,
    pub content: String,
}

/// What a first run does to the store: the files to write, in order, and
/// whether to create the sentinel after them.
#[derive(Clone, Debug, PartialEq, Eq)]
pub struct SeedPlan {
    pub writes: Vec<TemplateWrite>,
    pub write_sentinel: bool,
}

/// A [`Template`] as plain values.
pub struct TemplateView {
    pub name: Seq<char>,
    pub content: Seq<char>,
}

/// A [`StoreFile`] as plain values.
pub struct StoreFileView {
    pub file_name: Seq<char>,
    pub name_is_text: bool,
    pub content: Option<Seq<char>>,
}

/// A [`TemplateWrite`] as plain values.
pub struct WriteView {
    pub file_name: Seq<char>,
    pub content: Seq<char>,
}

/// A [`SeedPlan`] as plain values.
pub struct SeedPlanView {
    pub writes: Seq<WriteView>,
    pub write_sentinel: bool,
}

impl View for Template {
    type V = TemplateView;

    open spec fn view(&self) -> TemplateView {
        TemplateView { name: self.name@, content: self.content@ }
    }
}

impl View for StoreFile {
    type V = StoreFileView;

    open spec fn view(&self) -> StoreFileView {
        StoreFileView {
            file_name: self.file_name@,
            name_is_text: self.name_is_text,
            content: match self.content {
                Some(text) => Some(text@),
                None => None,
            },
        }
    }
}

impl View for TemplateWrite {
    type V = WriteView;

    open spec fn view(&self) -> WriteView {
        WriteView { file_name: self.file_name@, content: self.content@ }
    }
}

impl View for SeedPlan {
    type V = SeedPlanView;

    open spec fn view(&self) -> SeedPlanView {
        SeedPlanView {
            writes: self.writes@.map_values(|w: TemplateWrite| w@),
            write_sentinel: self.write_sentinel,
        }
    }
}

/// Templates as plain values.
pub open spec fn template_views(templates: Seq<Template>) -> Seq<TemplateView> {
    templates.map_values(|t: Template| t@)
}

/// The children of the store's directory as plain values.
pub open spec fn store_views(files: Seq<StoreFile>) -> Seq<StoreFileView> {
    files.map_values(|f: StoreFile| f@)
}

/// The built-in templates, in the order in which a first run adds them.
pub open spec fn default_templates_spec() -> Seq<TemplateView> {
    seq![
        TemplateView { name: WEB_PROJECT_NAME@, content: WEB_PROJECT_TEMPLATE@ },
        TemplateView { name: SCHOOL_CLASS_NAME@, content: SCHOOL_CLASS_TEMPLATE@ },
        TemplateView { name: VIDEO_PROJECT_NAME@, content: VIDEO_PROJECT_TEMPLATE@ },
        TemplateView { name: GRAPHIC_DESIGN_NAME@, content: GRAPHIC_DESIGN_TEMPLATE@ },
    ]
}

/// The name of the file that backs the template of the given name.
pub open spec fn template_file_name_spec(name: Seq<char>) -> Seq<char> {
    name + seq![DOT] + TEMPLATE_EXTENSION@
}

/// A file backs a template when its extension is that of templates.
pub open spec fn is_template_file_name(file_name: Seq<char>) -> bool {
    extension_of(file_name) == Some(TEMPLATE_EXTENSION@)
}

/// The template that a child of the store's directory stands for, if any:
/// it has the extension of templates and readable text, and its name is the
/// base name of the file.
pub open spec fn listed_template(file: StoreFileView) -> Option<TemplateView> {
    if is_template_file_name(file.file_name) && file.content is Some {
        Some(
            TemplateView {
                name: if file.name_is_text {
                    stem_of(file.file_name)
                } else {
                    UNNAMED_TEMPLATE@
                },
                content: file.content->0,
            },
        )
    } else {
        None
    }
}

/// The templates of a store, in the order of its directory.
pub open spec fn listed_templates(files: Seq<StoreFileView>) -> Seq<TemplateView> {
    files.filter_map(|f: StoreFileView| listed_template(f))
}

/// The name that a child of the store's directory takes up: the base name
/// of a file with the extension of templates, where that name is text. A
/// child with another extension or with none takes up no name.
pub open spec fn taken_name(file: StoreFileView) -> Option<Seq<char>> {
    if is_template_file_name(file.file_name) && file.name_is_text {
        Some(stem_of(file.file_name))
    } else {
        None
    }
}

/// Some template file of the store's directory takes up this name.
pub open spec fn is_taken(files: Seq<StoreFileView>, name: Seq<char>) -> bool {
    exists|i: int| 0 <= i < files.len() && taken_name(#[trigger] files[i]) == Some(name)
}

/// What seeding writes for one built-in template: its file, unless its name
/// is taken.
pub open spec fn seed_write(files: Seq<StoreFileView>, template: TemplateView) -> Option<WriteView> {
    if is_taken(files, template.name) {
        None
    } else {
        Some(
            WriteView {
                file_name: template_file_name_spec(template.name),
                content: template.content,
            },
        )
    }
}

/// What seeding does to a store. With the sentinel present it does nothing.
/// Without it, it writes each built-in template whose name no template file
/// has taken and then creates the sentinel.
pub open spec fn seed_plan(sentinel_present: bool, files: Seq<StoreFileView>) -> SeedPlanView {
    if sentinel_present {
        SeedPlanView { writes: Seq::empty(), write_sentinel: false }
    } else {
        SeedPlanView {
            writes: default_templates_spec().filter_map(|t: TemplateView| seed_write(files, t)),
            write_sentinel: true,
        }
    }
}

/// Where the store is, given the documents directory if the platform knows
/// one.
pub open spec fn templates_directory_spec(documents: Option<Seq<char>>) -> Result<
    Seq<char>,
    ErrorView,
> {
    match documents {
        Some(d) => Ok(join_spec(join_spec(d, PRODUCT_DIRECTORY@), TEMPLATES_DIRECTORY@)),
        None => Err(ErrorView::NotFound(DOCUMENTS_SUBJECT@)),
    }
}

/// The built-in templates.
pub fn default_templates() -> (templates: Vec<Template>)
    ensures
        template_views(templates@) == default_templates_spec(),
{
    let mut templates: Vec<Template> = Vec::new();
    templates.push(
        Template {
            name: String::from_str(WEB_PROJECT_NAME),
            content: String::from_str(WEB_PROJECT_TEMPLATE),
        },
    );
    templates.push(
        Template {
            name: String::from_str(SCHOOL_CLASS_NAME),
            content: String::from_str(SCHOOL_CLASS_TEMPLATE),
        },
    );
    templates.push(
        Template {
            name: String::from_str(VIDEO_PROJECT_NAME),
            content: String::from_str(VIDEO_PROJECT_TEMPLATE),
        },
    );
    templates.push(
        Template {
            name: String::from_str(GRAPHIC_DESIGN_NAME),
            content: String::from_str(GRAPHIC_DESIGN_TEMPLATE),
        },
    );
    templates
}

/// The name of the file that backs the template of the given name.
pub fn template_file_name(name: &str) -> (file_name: String)
    ensures
        file_name@ == template_file_name_spec(name@),
{
    let mut file_name = String::from_str(name);
    proof {
        reveal_strlit(".");
    }
    file_name.append(".");
    file_name.append(TEMPLATE_EXTENSION);
    file_name
}

/// Whether the file of this name backs a template.
pub fn is_template_file(file_name: &str) -> (r: bool)
    ensures
        r == is_template_file_name(file_name@),
{
    match file_extension(file_name) {
        Some(extension) => same_text(extension.as_str(), TEMPLATE_EXTENSION),
        None => false,
    }
}

/// Whether some template file of the store's directory takes up the name.
pub fn is_name_taken(files: &Vec<StoreFile>, name: &str) -> (taken: bool)
    ensures
        taken == is_taken(store_views(files@), name@),
{
    let ghost views = store_views(files@);
    let mut i: usize = 0;
    while i < files.len()
        invariant
            0 <= i <= files.len(),
            views == store_views(files@),
            forall|j: int| 0 <= j < i ==> taken_name(#[trigger] views[j]) != Some(name@),
        decreases files.len() - i,
    {
        assert(views[i as int] == files@[i as int]@);
        if is_template_file(files[i].file_name.as_str()) && files[i].name_is_text {
            let stem = file_stem(files[i].file_name.as_str());
            if same_text(stem.as_str(), name) {
                return true;
            }
        }
        i += 1;
    }
    false
}

/// The templates of the store, from the children of its directory: every
/// file with the extension of templates whose content is readable text, in
/// the order of the directory. Other children are passed over.
pub fn get_templates(files: &Vec<StoreFile>) -> (templates: Vec<Template>)
    ensures
        template_views(templates@) == listed_templates(store_views(files@)),
{
    let ghost views = store_views(files@);
    let mut templates: Vec<Template> = Vec::new();
    let mut i: usize = 0;
    while i < files.len()
        invariant
            0 <= i <= files.len(),
            views == store_views(files@),
            template_views(templates@) == listed_templates(views.take(i as int)),
        decreases files.len() - i,
    {
        let ghost seen = views.take(i as int);
        let ghost next = views.take(i + 1);
        assert(next.drop_last() =~= seen);
        let file = &files[i];
        if is_template_file(file.file_name.as_str()) {
            match &file.content {
                Some(text) => {
                    let name = if file.name_is_text {
                        file_stem(file.file_name.as_str())
                    } else {
                        String::from_str(UNNAMED_TEMPLATE)
                    };
                    templates.push(Template { name, content: text.clone() });
                },
                None => {},
            }
        }
        i += 1;
    }
    assert(views.take(i as int) =~= views);
    templates
}

/// What saving a template writes: the file for `name`, holding exactly
/// `content`, whether or not that file exists already.
pub fn save_template(name: &str, content: &str) -> (write: TemplateWrite)
    ensures
        write@ == (WriteView { file_name: template_file_name_spec(name@), content: content@ }),
{
    TemplateWrite { file_name: template_file_name(name), content: String::from_str(content) }
}

/// Plans the seeding of the store from whether its sentinel is present and
/// from the children of its directory. Once the sentinel is there, nothing
/// is ever written again, whatever the directory holds.
pub fn ensure_default_templates(sentinel_present: bool, files: &Vec<StoreFile>) -> (plan: SeedPlan)
    ensures
        plan@ == seed_plan(sentinel_present, store_views(files@)),
        sentinel_present ==> plan.writes@.len() == 0 && !plan.write_sentinel,
        !sentinel_present ==> plan.write_sentinel,
{
    let mut writes: Vec<TemplateWrite> = Vec::new();
    if sentinel_present {
        let plan = SeedPlan { writes, write_sentinel: false };
        assert(plan@.writes =~= Seq::<WriteView>::empty());
        return plan;
    }
    let ghost views = store_views(files@);
    let ghost choose_write = |t: TemplateView| seed_write(views, t);
    let defaults = default_templates();
    let ghost defaults_spec = default_templates_spec();
    let mut i: usize = 0;
    while i < defaults.len()
        invariant
            0 <= i <= defaults.len(),
            views == store_views(files@),
            defaults_spec == default_templates_spec(),
            template_views(defaults@) == defaults_spec,
            choose_write == |t: TemplateView| seed_write(views, t),
            writes@.map_values(|w: TemplateWrite| w@) == defaults_spec.take(i as int).filter_map(
                choose_write,
            ),
        decreases defaults.len() - i,
    {
        let ghost seen = defaults_spec.take(i as int);
        let ghost next = defaults_spec.take(i + 1);
        assert(next.drop_last() =~= seen);
        let template = &defaults[i];
        if !is_name_taken(files, template.name.as_str()) {
            writes.push(
                TemplateWrite {
                    file_name: template_file_name(template.name.as_str()),
                    content: template.content.clone(),
                },
            );
        }
        i += 1;
    }
    assert(defaults_spec.take(i as int) =~= defaults_spec);
    SeedPlan { writes, write_sentinel: true }
}

/// Where the store is below the documents directory that the caller has
/// looked up, or the error when there is none.
pub fn templates_directory(documents: Option<&str>) -> (directory: Result<String, Error>)
    ensures
        templates_directory_spec(
            match documents {
                Some(d) => Some(d@),
                None => None,
            },
        ) == (match directory {
            Ok(path) => Ok::<Seq<char>, ErrorView>(path@),
            Err(e) => Err::<Seq<char>, ErrorView>(e@),
        }),
{
    match documents {
        Some(d) => {
            let product = join(d, PRODUCT_DIRECTORY);
            Ok(join(product.as_str(), TEMPLATES_DIRECTORY))
        },
        None => Err(Error::NotFound(String::from_str(DOCUMENTS_SUBJECT))),
    }
}

} // verus!
