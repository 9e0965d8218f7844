//! The documentation generator's content side: scanning doc comments out of
//! SafeLang sources, a small markdown renderer, and the page, index and
//! search-index builders. The host around this library walks directories,
//! loads templates and writes the produced pages to disk.

use vstd::prelude::*;
use vstd::string::StrSliceExecFns;
use vstd::string::StringExecFns;

use crate::ast::ASTNode;
use crate::ast::FunctionDecl;
use crate::ast::Module;
use crate::ast::AST;
use crate::strutil::first_word;
use crate::strutil::nth_line;
use crate::strutil::spec_starts_with;
use crate::strutil::spec_trim;
use crate::strutil::str_copy;
use crate::strutil::str_replace;
use crate::strutil::str_starts_with;
use crate::strutil::str_trim;
use crate::strutil::str_after;
use crate::strutil::up_to_char;
use crate::strutil::usize_to_string;
use crate::table::assoc_get;
use crate::table::assoc_put;
use crate::table::spec_assoc;

verus! {

/// The output formats the generator can produce.
#[derive(Clone, Copy, Debug, PartialEq, Eq, Structural)]
pub enum DocFormat {
    HTML,
    Markdown,
    PlainText,
}

/// The presentation settings of a documentation build.
#[derive(Clone, Debug)]
pub struct DocConfig {
    pub title: String,
    pub version: String,
    pub author: String,
    pub description: String,
    pub repository: String,
}

impl Default for DocConfig {
    /// The stock SafeLang presentation settings.
    fn default() -> (r: DocConfig)
        ensures
            r.title@ == "SafeLang Documentation"@,
            r.version@ == "0.1.0"@,
    {
        DocConfig {
            title: str_copy("SafeLang Documentation"),
            version: str_copy("0.1.0"),
            author: str_copy("SafeLang Team"),
            description: str_copy("Documentation for the SafeLang programming language"),
            repository: str_copy("https://github.com/safelang/safelang"),
        }
    }
}

/// What kind of declaration a documented item is.
#[derive(Clone, Copy, Debug, PartialEq, Eq, Structural)]
pub enum DocItemKind {
    Class,
    Function,
    Struct,
    Enum,
    Interface,
}

/// The rendered section name of an item kind.
pub open spec fn spec_kind_word(kind: DocItemKind) -> Seq<char> {
    match kind {
        DocItemKind::Class => "Class"@,
        DocItemKind::Function => "Function"@,
        DocItemKind::Struct => "Struct"@,
        DocItemKind::Enum => "Enum"@,
        DocItemKind::Interface => "Interface"@,
    }
}

/// One documented member of an item.
#[derive(Clone, Debug)]
pub struct DocMember {
    pub name: String,
    pub documentation: String,
}

/// One documented declaration pulled out of a source file.
#[derive(Clone, Debug)]
pub struct DocItem {
    pub name: String,
    pub kind: DocItemKind,
    pub documentation: String,
    pub source_file: String,
    pub line_number: usize,
    pub members: Vec<DocMember>,
}

/// Builds documentation content from sources and templates.
#[derive(Debug)]
pub struct DocGenerator {
    source_dirs: Vec<String>,
    output_dir: String,
    templates: Vec<(String, String)>,
    config: DocConfig,
}

impl DocGenerator {
    /// The directories registered for scanning.
    pub closed spec fn spec_source_dirs(&self) -> Seq<String> {
        self.source_dirs@
    }

    /// The registered templates, by name.
    pub closed spec fn spec_templates(&self) -> Seq<(String, String)> {
        self.templates@
    }

    /// The output directory pages are addressed under.
    pub closed spec fn spec_output_dir(&self) -> Seq<char> {
        self.output_dir@
    }

    /// A generator that will address its pages under `output_dir`, with the
    /// stock settings and no sources or templates yet.
    pub fn new(output_dir: &str) -> (r: DocGenerator)
        ensures
            r.spec_output_dir() == output_dir@,
            r.spec_source_dirs().len() == 0,
            r.spec_templates().len() == 0,
    {
        DocGenerator {
            source_dirs: Vec::new(),
            output_dir: str_copy(output_dir),
            templates: Vec::new(),
            config: DocConfig::default(),
        }
    }

    /// Registers one more directory to scan; the host checks it exists.
    pub fn add_source_dir(&mut self, dir: &str)
        ensures
            final(self).spec_source_dirs().len() == old(self).spec_source_dirs().len() + 1,
            final(self).spec_source_dirs().last()@ == dir@,
            final(self).spec_source_dirs().drop_last() == old(self).spec_source_dirs(),
    {
        self.source_dirs.push(str_copy(dir));
        proof {
            assert(self.source_dirs@.drop_last() =~= old(self).source_dirs@);
        }
    }

    /// Registers a template under `name`; a later registration replaces it.
    pub fn load_template(&mut self, name: &str, template: &str)
        ensures
            spec_assoc(final(self).spec_templates(), name@) matches Some(t) && t@ == template@,
    {
        assoc_put(&mut self.templates, str_copy(name), str_copy(template));
    }

    /// Replaces the presentation settings.
    pub fn set_config(&mut self, config: DocConfig)
        ensures
            final(self).spec_source_dirs() == old(self).spec_source_dirs(),
            final(self).spec_templates() == old(self).spec_templates(),
            final(self).spec_output_dir() == old(self).spec_output_dir(),
    {
        self.config = config;
    }

    /// Pulls the documented declarations out of one source file: a run of
    /// `///` lines documents the declaration on the line after it.
    pub fn parse_file(&self, file: &str, content: &str) -> (r: Vec<DocItem>) {
        let mut items: Vec<DocItem> = Vec::new();
        let mut in_doc_comment = false;
        let mut current_doc = String::new();
        let mut line_number: usize = 0;
        let limit: usize = content.unicode_len();
        let mut index: usize = 0;
        loop
            invariant
                index <= limit,
                limit == content@.len(),
            decreases limit - index,
        {
            let line = match nth_line(content, index) {
                Some(line) => line,
                None => {
                    break ;
                },
            };
            proof {
                crate::strutil::lemma_nth_line_bound(content@, index as nat);
            }
            if line_number < usize::MAX {
                line_number = line_number + 1;
            }
            let trimmed = str_trim(line.as_str());
            if str_starts_with(trimmed.as_str(), "///") {
                let doc_text = str_trim(str_after(trimmed.as_str(), 3).as_str());
                if !in_doc_comment {
                    in_doc_comment = true;
                    current_doc = String::new();
                }
                current_doc.append(doc_text.as_str());
                current_doc.append("\n");
            } else if in_doc_comment {
                in_doc_comment = false;
                match self.parse_declaration(
                    line.as_str(),
                    current_doc.as_str(),
                    file,
                    line_number,
                ) {
                    Some(item) => {
                        items.push(item);
                    },
                    None => {},
                }
                current_doc = String::new();
            }
            index = index + 1;
        }
        items
    }

    /// Reads one declaration line: its kind keyword and the declared name.
    pub fn parse_declaration(
        &self,
        line: &str,
        doc_text: &str,
        file: &str,
        line_number: usize,
    ) -> (r: Option<DocItem>)
        ensures
            r is Some <==> (spec_starts_with(spec_trim(line@), "class "@) || spec_starts_with(
                spec_trim(line@),
                "function "@,
            ) || spec_starts_with(spec_trim(line@), "struct "@) || spec_starts_with(
                spec_trim(line@),
                "enum "@,
            ) || spec_starts_with(spec_trim(line@), "interface "@)),
            r matches Some(item) ==> item.documentation@ == doc_text@ && item.source_file@ == file@
                && item.line_number == line_number,
    {
        let line = str_trim(line);
        let (kind, name) = if str_starts_with(line.as_str(), "class ") {
            (DocItemKind::Class, first_word(str_after(line.as_str(), 6).as_str()))
        } else if str_starts_with(line.as_str(), "function ") {
            (
                DocItemKind::Function,
                str_trim(up_to_char(str_after(line.as_str(), 9).as_str(), '(').as_str()),
            )
        } else if str_starts_with(line.as_str(), "struct ") {
            (DocItemKind::Struct, first_word(str_after(line.as_str(), 7).as_str()))
        } else if str_starts_with(line.as_str(), "enum ") {
            (DocItemKind::Enum, first_word(str_after(line.as_str(), 5).as_str()))
        } else if str_starts_with(line.as_str(), "interface ") {
            (DocItemKind::Interface, first_word(str_after(line.as_str(), 10).as_str()))
        } else {
            return None;
        };
        Some(
            DocItem {
                name,
                kind,
                documentation: str_copy(doc_text),
                source_file: str_copy(file),
                line_number,
                members: Vec::new(),
            },
        )
    }

    /// Renders one section of the index: a heading and a linked list of
    /// items, or nothing when the section is empty.
    pub fn generate_item_list(&self, items: &Vec<DocItem>, title: &str) -> (r: String) {
        if items.len() == 0 {
            return String::new();
        }
        let mut html = str_copy("<h2>");
        html.append(title);
        html.append("</h2>\n<ul>\n");
        let mut i: usize = 0;
        while i < items.len()
            decreases items@.len() - i,
        {
            let item = &items[i];
            html.append("  <li><a href=\"");
            html.append(item.name.as_str());
            html.append(".html\">");
            html.append(item.name.as_str());
            html.append("</a> - ");
            let summary = match nth_line(item.documentation.as_str(), 0) {
                Some(line) => str_trim(line.as_str()),
                None => String::new(),
            };
            html.append(summary.as_str());
            html.append("</li>\n");
            i = i + 1;
        }
        html.append("</ul>\n");
        html
    }

    /// Renders the index page from the `index` template, or reports the
    /// missing template.
    pub fn render_index(&self, docs: &Vec<DocItem>) -> (r: Option<String>)
        ensures
            r is Some <==> spec_assoc(self.spec_templates(), "index"@) is Some,
    {
        let template = match assoc_get(&self.templates, "index") {
            Some(template) => template,
            None => {
                return None;
            },
        };
        let mut classes: Vec<DocItem> = Vec::new();
        let mut functions: Vec<DocItem> = Vec::new();
        let mut structs: Vec<DocItem> = Vec::new();
        let mut enums: Vec<DocItem> = Vec::new();
        let mut interfaces: Vec<DocItem> = Vec::new();
        let mut i: usize = 0;
        while i < docs.len()
            decreases docs@.len() - i,
        {
            let item = &docs[i];
            let copy = DocItem {
                name: str_copy(item.name.as_str()),
                kind: item.kind,
                documentation: str_copy(item.documentation.as_str()),
                source_file: str_copy(item.source_file.as_str()),
                line_number: item.line_number,
                members: Vec::new(),
            };
            match item.kind {
                DocItemKind::Class => classes.push(copy),
                DocItemKind::Function => functions.push(copy),
                DocItemKind::Struct => structs.push(copy),
                DocItemKind::Enum => enums.push(copy),
                DocItemKind::Interface => interfaces.push(copy),
            }
            i = i + 1;
        }
        let mut content = str_copy(template.as_str());
        content = str_replace(content.as_str(), "{{title}}", self.config.title.as_str());
        content = str_replace(content.as_str(), "{{version}}", self.config.version.as_str());
        content = str_replace(
            content.as_str(),
            "{{classes}}",
            self.generate_item_list(&classes, "Classes").as_str(),
        );
        content = str_replace(
            content.as_str(),
            "{{functions}}",
            self.generate_item_list(&functions, "Functions").as_str(),
        );
        content = str_replace(
            content.as_str(),
            "{{structs}}",
            self.generate_item_list(&structs, "Structs").as_str(),
        );
        content = str_replace(
            content.as_str(),
            "{{enums}}",
            self.generate_item_list(&enums, "Enums").as_str(),
        );
        content = str_replace(
            content.as_str(),
            "{{interfaces}}",
            self.generate_item_list(&interfaces, "Interfaces").as_str(),
        );
        Some(content)
    }

    /// Renders one item's page from the `item` template, or reports the
    /// missing template.
    pub fn render_page(&self, doc: &DocItem) -> (r: Option<String>)
        ensures
            r is Some <==> spec_assoc(self.spec_templates(), "item"@) is Some,
    {
        let template = match assoc_get(&self.templates, "item") {
            Some(template) => template,
            None => {
                return None;
            },
        };
        let mut full_title = str_copy(doc.name.as_str());
        full_title.append(" - ");
        full_title.append(self.config.title.as_str());
        let mut content = str_copy(template.as_str());
        content = str_replace(content.as_str(), "{{title}}", full_title.as_str());
        content = str_replace(content.as_str(), "{{version}}", self.config.version.as_str());
        content = str_replace(content.as_str(), "{{name}}", doc.name.as_str());
        content = str_replace(content.as_str(), "{{kind}}", kind_word(doc.kind).as_str());
        content = str_replace(
            content.as_str(),
            "{{documentation}}",
            self.markdown_to_html(doc.documentation.as_str()).as_str(),
        );
        let mut source_info = str_copy("Defined in <code>");
        source_info.append(doc.source_file.as_str());
        source_info.append("</code> at line ");
        source_info.append(usize_to_string(doc.line_number).as_str());
        content = str_replace(content.as_str(), "{{source}}", source_info.as_str());
        let members_html = if doc.members.len() == 0 {
            String::new()
        } else {
            let mut html = str_copy("<h2>Members</h2>\n<ul>\n");
            let mut i: usize = 0;
            while i < doc.members.len()
                decreases doc.members@.len() - i,
            {
                let member = &doc.members[i];
                html.append("  <li><code>");
                html.append(member.name.as_str());
                html.append("</code> - ");
                let summary = match nth_line(member.documentation.as_str(), 0) {
                    Some(line) => str_trim(line.as_str()),
                    None => String::new(),
                };
                html.append(summary.as_str());
                html.append("</li>\n");
                i = i + 1;
            }
            html.append("</ul>\n");
            html
        };
        content = str_replace(content.as_str(), "{{members}}", members_html.as_str());
        Some(content)
    }

    /// Renders the search index script the pages load.
    pub fn generate_search_index(&self, docs: &Vec<DocItem>) -> (r: String) {
        let mut index_data = str_copy("window.searchIndex = [\n");
        let mut i: usize = 0;
        while i < docs.len()
            decreases docs@.len() - i,
        {
            let doc = &docs[i];
            let summary = match nth_line(doc.documentation.as_str(), 0) {
                Some(line) => str_trim(line.as_str()),
                None => String::new(),
            };
            index_data.append("  {\"name\":\"");
            index_data.append(doc.name.as_str());
            index_data.append("\",\"kind\":\"");
            index_data.append(kind_word(doc.kind).as_str());
            index_data.append("\",\"summary\":\"");
            index_data.append(summary.as_str());
            index_data.append("\",\"url\":\"");
            index_data.append(doc.name.as_str());
            index_data.append(".html\"}");
            if i + 1 < docs.len() {
                index_data.append(",\n");
            } else {
                index_data.append("\n");
            }
            i = i + 1;
        }
        index_data.append("];\n");
        index_data
    }

    /// Renders doc-comment markdown as HTML: headings, bullet lists, fenced
    /// code blocks, and paragraphs.
    pub fn markdown_to_html(&self, markdown: &str) -> (r: String) {
        let mut html = String::new();
        let mut in_code_block = false;
        let mut in_list = false;
        let limit: usize = markdown.unicode_len();
        let mut index: usize = 0;
        loop
            invariant
                index <= limit,
                limit == markdown@.len(),
            decreases limit - index,
        {
            let line = match nth_line(markdown, index) {
                Some(line) => line,
                None => {
                    break ;
                },
            };
            proof {
                crate::strutil::lemma_nth_line_bound(markdown@, index as nat);
            }
            let trimmed = str_trim(line.as_str());
            if str_starts_with(trimmed.as_str(), "```") {
                if in_code_block {
                    html.append("</code></pre>\n");
                } else {
                    html.append("<pre><code>");
                }
                in_code_block = !in_code_block;
            } else if in_code_block {
                html.append(line.as_str());
                html.append("\n");
            } else if str_starts_with(trimmed.as_str(), "# ") {
                html.append("<h1>");
                html.append(str_after(trimmed.as_str(), 2).as_str());
                html.append("</h1>\n");
            } else if str_starts_with(trimmed.as_str(), "## ") {
                html.append("<h2>");
                html.append(str_after(trimmed.as_str(), 3).as_str());
                html.append("</h2>\n");
            } else if str_starts_with(trimmed.as_str(), "### ") {
                html.append("<h3>");
                html.append(str_after(trimmed.as_str(), 4).as_str());
                html.append("</h3>\n");
            } else if str_starts_with(trimmed.as_str(), "- ") {
                if !in_list {
                    html.append("<ul>\n");
                    in_list = true;
                }
                html.append("  <li>");
                html.append(str_after(trimmed.as_str(), 2).as_str());
                html.append("</li>\n");
            } else if trimmed.as_str().unicode_len() == 0 && in_list {
                html.append("</ul>\n");
                in_list = false;
                html.append("<p></p>\n");
            } else if trimmed.as_str().unicode_len() == 0 {
                html.append("<p></p>\n");
            } else {
                html.append("<p>");
                html.append(trimmed.as_str());
                html.append("</p>\n");
            }
            index = index + 1;
        }
        if in_list {
            html.append("</ul>\n");
        }
        if in_code_block {
            html.append("</code></pre>\n");
        }
        html
    }

    /// Renders one function's markdown section: its heading, doc comment and
    /// signature.
    pub fn document_function(&self, content: &mut String, func: &FunctionDecl)
        ensures
            final(content)@.len() >= old(content)@.len(),
    {
        let ghost base = content@.len();
        content.append("### `");
        content.append(func.name.as_str());
        content.append("`\n\n");
        match &func.doc_comment {
            Some(doc) => {
                content.append(doc.as_str());
                content.append("\n\n");
            },
            None => {},
        }
        content.append("**Signature:**\n\n");
        content.append("```\n");
        content.append("function ");
        content.append(func.name.as_str());
        content.append("(");
        let mut i: usize = 0;
        while i < func.params.len()
            invariant
                content@.len() >= base,
            decreases func.params@.len() - i,
        {
            if i > 0 {
                content.append(", ");
            }
            content.append(func.params[i].name.as_str());
            content.append(": ");
            content.append(func.params[i].type_ref.as_str());
            i = i + 1;
        }
        content.append("): ");
        content.append(func.return_type.as_str());
        content.append("\n```\n\n");
    }

    /// Renders one module's markdown page: its doc comment, then its
    /// functions.
    pub fn render_module_doc(&self, module: &Module) -> (r: String) {
        let mut content = str_copy("# Module ");
        content.append(module.name.as_str());
        content.append("\n\n");
        match &module.doc_comment {
            Some(doc) => {
                content.append(doc.as_str());
                content.append("\n\n");
            },
            None => {},
        }
        content.append("## Functions\n\n");
        let mut i: usize = 0;
        while i < module.body.len()
            decreases module.body@.len() - i,
        {
            match &module.body[i] {
                ASTNode::FunctionDecl(func) => {
                    self.document_function(&mut content, func);
                },
                _ => {},
            }
            i = i + 1;
        }
        content
    }

    /// Renders the module index page of a whole tree.
    pub fn render_module_index(&self, ast: &AST) -> (r: String) {
        let mut content = str_copy("# SafeLang API Documentation\n\n## Modules\n\n");
        let mut i: usize = 0;
        while i < ast.nodes.len()
            decreases ast.nodes@.len() - i,
        {
            match &ast.nodes[i] {
                ASTNode::Module(module) => {
                    content.append("- [");
                    content.append(module.name.as_str());
                    content.append("](");
                    content.append(module.name.as_str());
                    content.append(".md)\n");
                },
                _ => {},
            }
            i = i + 1;
        }
        content
    }
}

/// The rendered section name of an item kind.
fn kind_word(kind: DocItemKind) -> (r: String)
    ensures
        r@ == spec_kind_word(kind),
{
    match kind {
        DocItemKind::Class => str_copy("Class"),
        DocItemKind::Function => str_copy("Function"),
        DocItemKind::Struct => str_copy("Struct"),
        DocItemKind::Enum => str_copy("Enum"),
        DocItemKind::Interface => str_copy("Interface"),
    }
}

} // verus!
