//! The tool catalog: one tool per application found in a directory listing.

use vstd::prelude::*;
use crate::text::{lower, char_lower, chars_of, string_of_chars, str_eq};
use crate::slug::{slug_of, slugify};
use crate::names::{names_view, strictly_sorted, insert_name};
use crate::protocol::{ToolDescription, input_schema};

verus! {

/// The name under which the application `app` is offered.
pub open spec fn tool_name(app: Seq<char>) -> Seq<char> {
    "app."@ + slug_of(app)
}

/// The description of the tool for the application `app`.
pub open spec fn tool_text(app: Seq<char>) -> Seq<char> {
    "Execute AppleScript commands in the "@ + app + " application context."@
}

/// A callable tool, bound to one application.
#[derive(Debug, Clone)]
pub struct Tool {
    pub name: String,
    pub app_name: String,
    pub description: String,
}

impl Tool {
    /// Name and description are those derived from the application's name.
    pub open spec fn well_formed(self) -> bool {
        &&& self.name@ == tool_name(self.app_name@)
        &&& self.description@ == tool_text(self.app_name@)
    }

    /// The tool for the application `app_name`.
    pub fn new(app_name: String) -> (tool: Tool)
        ensures
            tool.app_name == app_name,
            tool.well_formed(),
    {
        let slug = slugify(app_name.as_str());
        let mut name = "app.".to_owned();
        name.append(slug.as_str());
        let mut description = "Execute AppleScript commands in the ".to_owned();
        description.append(app_name.as_str());
        description.append(" application context.");
        Tool { name, app_name, description }
    }

    /// What a client is told of the tool: its name, its description, and
    /// the schema of its one argument.
    pub fn description(&self) -> (d: ToolDescription)
        ensures
            d.name@ == self.name@,
            d.description@ == self.description@,
            d.input_schema matches Some(schema) && schema@ == input_schema(),
    {
        ToolDescription {
            name: self.name.clone(),
            description: self.description.clone(),
            input_schema: Some(crate::protocol::script_schema()),
        }
    }

    /// A copy of the tool.
    pub fn duplicate(&self) -> (t: Tool)
        ensures
            t.name@ == self.name@,
            t.app_name@ == self.app_name@,
            t.description@ == self.description@,
    {
        Tool {
            name: self.name.clone(),
            app_name: self.app_name.clone(),
            description: self.description.clone(),
        }
    }
}

/// The place of the last tool of `tools` that is called `name`.
pub open spec fn find_tool(tools: Seq<Tool>, name: Seq<char>) -> Option<int>
    decreases tools.len(),
{
    if tools.len() == 0 {
        None
    } else if tools.last().name@ == name {
        Some(tools.len() - 1)
    } else {
        find_tool(tools.drop_last(), name)
    }
}

/// The tools of a server, in listing order.
#[derive(Debug, Clone)]
pub struct ToolRegistry {
    pub tools: Vec<Tool>,
}

impl ToolRegistry {
    /// A registry that lists `tools` in the order given.
    pub fn new(tools: Vec<Tool>) -> (r: ToolRegistry)
        ensures
            r.tools == tools,
    {
        ToolRegistry { tools }
    }

    /// The descriptor of every tool, in listing order.
    pub fn descriptions(&self) -> (r: Vec<ToolDescription>)
        ensures
            r@.len() == self.tools@.len(),
            forall|i: int|
                0 <= i < r@.len() ==> {
                    &&& (#[trigger] r@[i]).name@ == self.tools@[i].name@
                    &&& r@[i].description@ == self.tools@[i].description@
                    &&& r@[i].input_schema matches Some(schema) && schema@ == input_schema()
                },
    {
        let mut out: Vec<ToolDescription> = Vec::new();
        let mut i: usize = 0;
        while i < self.tools.len()
            invariant
                i <= self.tools@.len(),
                out@.len() == i,
                forall|k: int|
                    0 <= k < i ==> {
                        &&& (#[trigger] out@[k]).name@ == self.tools@[k].name@
                        &&& out@[k].description@ == self.tools@[k].description@
                        &&& out@[k].input_schema matches Some(schema) && schema@ == input_schema()
                    },
            decreases self.tools@.len() - i,
        {
            out.push(self.tools[i].description());
            i = i + 1;
        }
        out
    }

    /// The tool called `name`: where several share the name, the one
    /// listed last.
    pub fn get(&self, name: &str) -> (r: Option<&Tool>)
        ensures
            r.is_some() == find_tool(self.tools@, name@).is_some(),
            r matches Some(t) ==> find_tool(self.tools@, name@) matches Some(i) && *t
                == self.tools@[i] && t.name@ == name@,
    {
        let mut i: usize = self.tools.len();
        proof {
            assert(self.tools@.subrange(0, i as int) =~= self.tools@);
        }
        while i > 0
            invariant
                i <= self.tools@.len(),
                find_tool(self.tools@, name@) == find_tool(self.tools@.subrange(0, i as int), name@),
            decreases i,
        {
            proof {
                assert(self.tools@.subrange(0, i as int).drop_last() =~= self.tools@.subrange(
                    0,
                    i - 1,
                ));
            }
            if str_eq(self.tools[i - 1].name.as_str(), name) {
                return Some(&self.tools[i - 1]);
            }
            i = i - 1;
        }
        None
    }
}

/// One entry of a directory: its file name, and whether it is a directory.
#[derive(Debug, Clone, PartialEq, Eq)]
pub struct DirItem {
    pub file_name: String,
    pub is_dir: bool,
}

/// The place of the last `.` in `name`, or -1 where it has none.
pub open spec fn last_dot(name: Seq<char>) -> int
    decreases name.len(),
{
    if name.len() == 0 {
        -1
    } else if name.last() == '.' {
        name.len() - 1
    } else {
        last_dot(name.drop_last())
    }
}

/// What follows the last `.` of a file name. A name without a `.`, or
/// with its only `.` in front, has no extension.
pub open spec fn extension_of(name: Seq<char>) -> Option<Seq<char>> {
    let d = last_dot(name);
    if d > 0 {
        Some(name.subrange(d + 1, name.len() as int))
    } else {
        None
    }
}

/// The file name without its extension.
pub open spec fn stem_of(name: Seq<char>) -> Seq<char> {
    let d = last_dot(name);
    if d > 0 {
        name.subrange(0, d)
    } else {
        name
    }
}

/// Equal but for the case of ASCII letters.
pub open spec fn same_ignoring_case(a: Seq<char>, b: Seq<char>) -> bool {
    &&& a.len() == b.len()
    &&& forall|i: int| 0 <= i < a.len() ==> lower(#[trigger] a[i]) == lower(b[i])
}

/// Whether `ext` is one of `list`, ignoring case.
pub open spec fn allowed(ext: Seq<char>, list: Seq<&str>) -> bool {
    exists|i: int| 0 <= i < list.len() && same_ignoring_case((#[trigger] list[i])@, ext)
}

/// The application that a directory entry stands for: the stem of a
/// file whose extension is in `list`; nothing for a directory or any
/// other file.
pub open spec fn app_of(item: DirItem, list: Seq<&str>) -> Option<Seq<char>> {
    if item.is_dir {
        None
    } else {
        match extension_of(item.file_name@) {
            Some(ext) => if allowed(ext, list) {
                Some(stem_of(item.file_name@))
            } else {
                None
            },
            None => None,
        }
    }
}

/// The last `.` lies inside the name, where there is one.
pub proof fn lemma_last_dot_bounds(name: Seq<char>)
    ensures
        -1 <= last_dot(name) < name.len(),
        last_dot(name) >= 0 ==> name[last_dot(name)] == '.',
    decreases name.len(),
{
    if name.len() > 0 && name.last() != '.' {
        lemma_last_dot_bounds(name.drop_last());
    }
}

fn same_chars_ignoring_case(a: &Vec<char>, b: &Vec<char>, from: usize) -> (r: bool)
    requires
        from <= b@.len(),
    ensures
        r == same_ignoring_case(a@, b@.subrange(from as int, b@.len() as int)),
{
    if a.len() != b.len() - from {
        return false;
    }
    let ghost rest = b@.subrange(from as int, b@.len() as int);
    let mut i: usize = 0;
    while i < a.len()
        invariant
            i <= a@.len(),
            from <= b@.len(),
            a@.len() == b@.len() - from,
            b@.len() <= usize::MAX,
            rest == b@.subrange(from as int, b@.len() as int),
            forall|k: int| 0 <= k < i ==> lower(#[trigger] a@[k]) == lower(rest[k]),
        decreases a@.len() - i,
    {
        if char_lower(a[i]) != char_lower(b[from + i]) {
            proof {
                assert(rest[i as int] == b@[from + i]);
            }
            return false;
        }
        proof {
            assert(rest[i as int] == b@[from + i]);
        }
        i = i + 1;
    }
    true
}

/// The application that `item` stands for, given the extensions to accept.
pub fn app_identity(item: &DirItem, extensions: &[&str]) -> (r: Option<String>)
    ensures
        r.is_some() == app_of(*item, extensions@).is_some(),
        r matches Some(s) ==> Some(s@) == app_of(*item, extensions@),
{
    if item.is_dir {
        return None;
    }
    let chars = chars_of(item.file_name.as_str());
    let mut d: usize = chars.len();
    proof {
        assert(chars@.subrange(0, d as int) =~= chars@);
        lemma_last_dot_bounds(chars@);
    }
    while d > 0 && chars[d - 1] != '.'
        invariant
            d <= chars@.len(),
            last_dot(chars@) == last_dot(chars@.subrange(0, d as int)),
        decreases d,
    {
        proof {
            assert(chars@.subrange(0, d as int).drop_last() =~= chars@.subrange(0, d - 1));
        }
        d = d - 1;
    }
    proof {
        if d > 0 {
            assert(chars@.subrange(0, d as int).last() == chars@[d - 1]);
        }
        assert(last_dot(chars@) == d - 1);
    }
    // `d` is one past the last dot, or 0 where there is none.
    if d <= 1 {
        return None;
    }
    let mut k: usize = 0;
    while k < extensions.len()
        invariant
            k <= extensions@.len(),
            1 < d <= chars@.len(),
            chars@ == item.file_name@,
            !item.is_dir,
            last_dot(chars@) == d - 1,
            forall|j: int|
                0 <= j < k ==> !same_ignoring_case(
                    (#[trigger] extensions@[j])@,
                    chars@.subrange(d as int, chars@.len() as int),
                ),
        decreases extensions@.len() - k,
    {
        let candidate = chars_of(extensions[k]);
        if same_chars_ignoring_case(&candidate, &chars, d) {
            proof {
                assert(same_ignoring_case(
                    extensions@[k as int]@,
                    chars@.subrange(d as int, chars@.len() as int),
                ));
            }
            return Some(string_of_chars(&chars, 0, d - 1));
        }
        k = k + 1;
    }
    None
}

/// Whether some entry of `entries` stands for the application `s`.
pub open spec fn offers(entries: Seq<DirItem>, list: Seq<&str>, s: Seq<char>) -> bool {
    exists|i: int| 0 <= i < entries.len() && app_of(#[trigger] entries[i], list) == Some(s)
}

/// Adds to `names` the application of every entry that has one.
pub fn collect_app_names(entries: &Vec<DirItem>, names: &mut Vec<String>, extensions: &[&str])
    requires
        strictly_sorted(names_view(old(names)@)),
    ensures
        strictly_sorted(names_view(final(names)@)),
        forall|s: Seq<char>|
            names_view(final(names)@).contains(s) <==> (names_view(old(names)@).contains(s)
                || offers(entries@, extensions@, s)),
{
    let mut i: usize = 0;
    while i < entries.len()
        invariant
            i <= entries@.len(),
            strictly_sorted(names_view(names@)),
            forall|s: Seq<char>|
                names_view(names@).contains(s) <==> (names_view(old(names)@).contains(s)
                    || offers(entries@.subrange(0, i as int), extensions@, s)),
        decreases entries@.len() - i,
    {
        let ghost before = names_view(names@);
        let ghost seen = entries@.subrange(0, i as int);
        let ghost next = entries@.subrange(0, i + 1);
        match app_identity(&entries[i], extensions) {
            Some(stem) => {
                insert_name(names, stem);
            },
            None => {},
        }
        proof {
            let here = app_of(entries@[i as int], extensions@);
            assert forall|s: Seq<char>| offers(next, extensions@, s) <==> (offers(
                seen,
                extensions@,
                s,
            ) || here == Some(s)) by {
                if offers(next, extensions@, s) {
                    let k = choose|k: int|
                        0 <= k < next.len() && app_of(#[trigger] next[k], extensions@) == Some(s);
                    if k < i {
                        assert(seen[k] == next[k]);
                    }
                }
                if offers(seen, extensions@, s) {
                    let k = choose|k: int|
                        0 <= k < seen.len() && app_of(#[trigger] seen[k], extensions@) == Some(s);
                    assert(next[k] == seen[k]);
                }
                if here == Some(s) {
                    assert(next[i as int] == entries@[i as int]);
                }
            }
        }
        i = i + 1;
    }
    proof {
        assert(entries@.subrange(0, i as int) =~= entries@);
    }
}

/// The application names of a list of tools, in order.
pub open spec fn app_names(tools: Seq<Tool>) -> Seq<Seq<char>> {
    Seq::new(tools.len(), |i: int| tools[i].app_name@)
}

/// The extensions accepted among the direct children of the root.
pub open spec fn root_extensions() -> Seq<&'static str> {
    Seq::<&'static str>::empty().push("pdf")
}

/// The extensions accepted in the `text` directory under the root.
pub open spec fn text_extensions() -> Seq<&'static str> {
    Seq::<&'static str>::empty().push("txt")
}

/// Whether a catalog read from these listings has a tool for the
/// application `s`. Without a root there is none; the `text` listing
/// counts only under a root.
pub open spec fn catalogued(
    root: Option<&Vec<DirItem>>,
    text: Option<&Vec<DirItem>>,
    s: Seq<char>,
) -> bool {
    match root {
        Some(entries) => offers(entries@, root_extensions(), s) || (match text {
            Some(more) => offers(more@, text_extensions(), s),
            None => false,
        }),
        None => false,
    }
}

/// Builds the catalog from the listing of the root directory and of the
/// `text` directory under it, each `None` where the directory is
/// missing. There is one tool for each application found, and the
/// tools are listed in the order of their applications' names.
pub fn load_tools(root: Option<&Vec<DirItem>>, text: Option<&Vec<DirItem>>) -> (r: ToolRegistry)
    ensures
        strictly_sorted(app_names(r.tools@)),
        forall|i: int| 0 <= i < r.tools@.len() ==> (#[trigger] r.tools@[i]).well_formed(),
        forall|s: Seq<char>| app_names(r.tools@).contains(s) <==> catalogued(root, text, s),
{
    let mut names: Vec<String> = Vec::new();
    proof {
        assert(names_view(names@) =~= Seq::<Seq<char>>::empty());
    }
    match root {
        Some(entries) => {
            let mut pdf: Vec<&str> = Vec::new();
            pdf.push("pdf");
            proof {
                assert(pdf@ =~= root_extensions());
            }
            collect_app_names(entries, &mut names, pdf.as_slice());
            match text {
                Some(more) => {
                    let mut txt: Vec<&str> = Vec::new();
                    txt.push("txt");
                    proof {
                        assert(txt@ =~= text_extensions());
                    }
                    collect_app_names(more, &mut names, txt.as_slice());
                },
                None => {},
            }
        },
        None => {},
    }
    let mut tools: Vec<Tool> = Vec::new();
    let mut i: usize = 0;
    while i < names.len()
        invariant
            i <= names@.len(),
            tools@.len() == i,
            forall|k: int|
                0 <= k < i ==> (#[trigger] tools@[k]).well_formed() && tools@[k].app_name@
                    == names@[k]@,
        decreases names@.len() - i,
    {
        tools.push(Tool::new(names[i].clone()));
        i = i + 1;
    }
    proof {
        assert(app_names(tools@) =~= names_view(names@));
    }
    ToolRegistry::new(tools)
}

} // verus!
