//! Text pieces of the XML configuration document: escaping and the `setuid` element.
use vstd::prelude::*;
use crate::capabilities::format_caps;
use crate::options::Opt;
use crate::structs::{strings_view, Role, Roles, Task};
use crate::text::{chars_of, dedup, join, push_str, string_of};

verus! {

/// The XML escape of one character: `&`, `<`, `>`, `"` and `'` become entities.
pub open spec fn escape_char(c: char) -> Seq<char> {
    if c == '&' {
        "&amp;"@
    } else if c == '<' {
        "&lt;"@
    } else if c == '>' {
        "&gt;"@
    } else if c == '"' {
        "&quot;"@
    } else if c == '\'' {
        "&apos;"@
    } else {
        seq![c]
    }
}

/// The XML escape of a text, character by character.
pub open spec fn escape(s: Seq<char>) -> Seq<char>
    decreases s.len(),
{
    if s.len() == 0 {
        Seq::empty()
    } else {
        escape(s.drop_last()) + escape_char(s.last())
    }
}

/// The text with the five XML special characters replaced by entities.
pub fn sxd_sanitize(element: &str) -> (r: String)
    ensures
        r@ == escape(element@),
{
    let cs = chars_of(element);
    let mut out: Vec<char> = Vec::new();
    let mut i: usize = 0;
    while i < cs.len()
        invariant
            i <= cs.len(),
            out@ == escape(cs@.subrange(0, i as int)),
        decreases cs.len() - i,
    {
        let c = cs[i];
        let ghost before = out@;
        if c == '&' {
            push_str(&mut out, "&amp;");
        } else if c == '<' {
            push_str(&mut out, "&lt;");
        } else if c == '>' {
            push_str(&mut out, "&gt;");
        } else if c == '"' {
            push_str(&mut out, "&quot;");
        } else if c == '\'' {
            push_str(&mut out, "&apos;");
        } else {
            out.push(c);
        }
        assert(cs@.subrange(0, i + 1).drop_last() =~= cs@.subrange(0, i as int));
        assert(out@ =~= before + escape_char(c));
        i += 1;
    }
    assert(cs@.subrange(0, cs.len() as int) =~= element@);
    string_of(&out)
}

/// `key="value"`.
pub open spec fn attribute(key: Seq<char>, value: Seq<char>) -> Seq<char> {
    key + "=\""@ + value + "\""@
}

/// The text `key="value"`.
pub fn attribute_str(key: &str, value: &str) -> (r: String)
    ensures
        r@ == attribute(key@, value@),
{
    let mut out: Vec<char> = Vec::new();
    push_str(&mut out, key);
    push_str(&mut out, "=\"");
    push_str(&mut out, value);
    push_str(&mut out, "\"");
    assert(out@ =~= attribute(key@, value@));
    string_of(&out)
}

/// `enforce="false"` for an item that is not enforced, nothing otherwise.
pub open spec fn enforce_item(item: (bool, String)) -> Seq<char> {
    if item.0 {
        Seq::empty()
    } else {
        attribute("enforce"@, "false"@)
    }
}

/// `name="…"` with the item's text, nothing when that text is empty.
pub open spec fn named_item(name: Seq<char>, item: (bool, String)) -> Seq<char> {
    if item.1@.len() == 0 {
        Seq::empty()
    } else {
        attribute(name, item.1@)
    }
}

/// The `enforce` attribute of an item.
pub fn enforce_item_str(item: &(bool, String)) -> (r: String)
    ensures
        r@ == enforce_item(*item),
{
    if item.0 {
        String::new()
    } else {
        attribute_str("enforce", "false")
    }
}

/// The `user` attribute of an item.
pub fn user_item_str(item: &(bool, String)) -> (r: String)
    ensures
        r@ == named_item("user"@, *item),
{
    if item.1.as_str().unicode_len() == 0 {
        String::new()
    } else {
        attribute_str("user", item.1.as_str())
    }
}

/// The `group` attribute of an item.
pub fn group_item_str(item: &(bool, String)) -> (r: String)
    ensures
        r@ == named_item("group"@, *item),
{
    if item.1.as_str().unicode_len() == 0 {
        String::new()
    } else {
        attribute_str("group", item.1.as_str())
    }
}

/// The attributes of a `setuid` element for a user item: nothing when enforced.
pub open spec fn setuser(item: (bool, String)) -> Seq<char> {
    if item.0 {
        Seq::empty()
    } else {
        enforce_item(item) + " "@ + named_item("user"@, item)
    }
}

/// The attributes of a `setuid` element for a group item: nothing when enforced.
pub open spec fn setgroup(item: (bool, String)) -> Seq<char> {
    if item.0 {
        Seq::empty()
    } else {
        enforce_item(item) + " "@ + named_item("group"@, item)
    }
}

fn concat3(a: &str, sep: &str, b: &str) -> (r: String)
    ensures
        r@ == a@ + sep@ + b@,
{
    let mut out: Vec<char> = Vec::new();
    push_str(&mut out, a);
    push_str(&mut out, sep);
    push_str(&mut out, b);
    string_of(&out)
}

/// The `setuid` attributes of a user item.
pub fn setuser_str(item: &(bool, String)) -> (r: String)
    ensures
        r@ == setuser(*item),
{
    if item.0 {
        String::new()
    } else {
        concat3(enforce_item_str(item).as_str(), " ", user_item_str(item).as_str())
    }
}

/// The `setuid` attributes of a group item.
pub fn setgroup_str(item: &(bool, String)) -> (r: String)
    ensures
        r@ == setgroup(*item),
{
    if item.0 {
        String::new()
    } else {
        concat3(enforce_item_str(item).as_str(), " ", group_item_str(item).as_str())
    }
}

/// The `setuid` element(s) for an optional user and an optional group item: one element
/// when both share their enforcement, two otherwise.
pub open spec fn setuid_xml(setuser_item: Option<(bool, String)>, setgroup_item: Option<(bool, String)>) -> Seq<char> {
    "<setuid "@ + match (setuser_item, setgroup_item) {
        (Some(u), Some(g)) => if u.0 == g.0 {
            enforce_item(u) + " "@ + named_item("user"@, u) + " "@ + named_item("group"@, g)
        } else {
            setuser(u) + "/>"@ + "<setuid "@ + setgroup(g)
        },
        (Some(u), None) => setuser(u),
        (None, Some(g)) => setgroup(g),
        (None, None) => Seq::empty(),
    } + "/>"@
}

/// The `setuid` element(s) for an optional user and an optional group item.
pub fn setuid_xml_str(setuser_item: Option<&(bool, String)>, setgroup_item: Option<&(bool, String)>) -> (r: String)
    ensures
        r@ == setuid_xml(
            match setuser_item {
                Some(u) => Some(*u),
                None => None,
            },
            match setgroup_item {
                Some(g) => Some(*g),
                None => None,
            },
        ),
{
    let mut out: Vec<char> = Vec::new();
    push_str(&mut out, "<setuid ");
    let ghost start = out@;
    match (setuser_item, setgroup_item) {
        (Some(u), Some(g)) => {
            if u.0 == g.0 {
                push_str(&mut out, enforce_item_str(u).as_str());
                push_str(&mut out, " ");
                push_str(&mut out, user_item_str(u).as_str());
                push_str(&mut out, " ");
                push_str(&mut out, group_item_str(g).as_str());
            } else {
                push_str(&mut out, setuser_str(u).as_str());
                push_str(&mut out, "/>");
                push_str(&mut out, "<setuid ");
                push_str(&mut out, setgroup_str(g).as_str());
            }
        },
        (Some(u), None) => {
            push_str(&mut out, setuser_str(u).as_str());
        },
        (None, Some(g)) => {
            push_str(&mut out, setgroup_str(g).as_str());
        },
        (None, None) => {},
    }
    push_str(&mut out, "/>");
    assert(out@ =~= setuid_xml(
        match setuser_item {
            Some(u) => Some(*u),
            None => None,
        },
        match setgroup_item {
            Some(g) => Some(*g),
            None => None,
        },
    ));
    string_of(&out)
}

/// A value rendered as an element of the XML configuration document.
pub trait ToXml {
    /// The text of the element.
    spec fn xml_spec(&self) -> Seq<char>;

    /// The element as text.
    fn to_xml_string(&self) -> (r: String)
        ensures
            r@ == self.xml_spec();
}

/// `<tag>` + escaped text + `</tag>`, or nothing when the text is unset.
pub open spec fn text_element(tag: Seq<char>, v: Option<String>) -> Seq<char> {
    match v {
        Some(s) => "<"@ + tag + ">"@ + escape(s@) + "</"@ + tag + ">"@,
        None => Seq::empty(),
    }
}

/// `<tag enforce="b"/>` when the flag is set to `b`, nothing when it is unset; a reader
/// takes `enforce="true"` (or no `enforce` attribute) as `true`.
pub open spec fn flag_element(tag: Seq<char>, v: Option<bool>) -> Seq<char> {
    match v {
        Some(b) => "<"@ + tag + " enforce=\""@ + (if b {
            "true"@
        } else {
            "false"@
        }) + "\"/>"@,
        None => Seq::empty(),
    }
}

/// The `options` element of a block: path, kept and checked variables, the root-allowed
/// and bounding-allowed flags and the wildcard-denied characters, each when it is set.
pub open spec fn opt_xml(o: Opt) -> Seq<char> {
    "<options>"@ + text_element("path"@, o.path) + text_element("env-keep"@, o.env_whitelist)
        + text_element("env-check"@, o.env_checklist) + flag_element("allow-root"@, o.allow_root)
        + flag_element("allow-bounding"@, o.disable_bounding) + text_element(
        "wildcard-denied"@,
        o.wildcard_denied,
    ) + "</options>"@
}

fn push_text_element(out: &mut Vec<char>, tag: &str, v: &Option<String>)
    ensures
        final(out)@ == old(out)@ + text_element(tag@, *v),
{
    match v {
        Some(s) => {
            push_str(out, "<");
            push_str(out, tag);
            push_str(out, ">");
            push_str(out, sxd_sanitize(s.as_str()).as_str());
            push_str(out, "</");
            push_str(out, tag);
            push_str(out, ">");
            assert(final(out)@ =~= old(out)@ + text_element(tag@, *v));
        },
        None => {
            assert(final(out)@ =~= old(out)@ + text_element(tag@, *v));
        },
    }
}

fn push_flag_element(out: &mut Vec<char>, tag: &str, v: Option<bool>)
    ensures
        final(out)@ == old(out)@ + flag_element(tag@, v),
{
    match v {
        Some(b) => {
            push_str(out, "<");
            push_str(out, tag);
            push_str(out, " enforce=\"");
            if b {
                push_str(out, "true");
            } else {
                push_str(out, "false");
            }
            push_str(out, "\"/>");
            assert(final(out)@ =~= old(out)@ + flag_element(tag@, v));
        },
        None => {
            assert(final(out)@ =~= old(out)@ + flag_element(tag@, v));
        },
    }
}

impl ToXml for Opt {
    open spec fn xml_spec(&self) -> Seq<char> {
        opt_xml(*self)
    }

    fn to_xml_string(&self) -> (r: String) {
        let mut out: Vec<char> = Vec::new();
        push_str(&mut out, "<options>");
        push_text_element(&mut out, "path", &self.path);
        push_text_element(&mut out, "env-keep", &self.env_whitelist);
        push_text_element(&mut out, "env-check", &self.env_checklist);
        push_flag_element(&mut out, "allow-root", self.allow_root);
        push_flag_element(&mut out, "allow-bounding", self.disable_bounding);
        push_text_element(&mut out, "wildcard-denied", &self.wildcard_denied);
        push_str(&mut out, "</options>");
        assert(out@ =~= opt_xml(*self));
        string_of(&out)
    }
}

/// The `command` elements of a task.
pub open spec fn command_elements(cs: Seq<Seq<char>>) -> Seq<char>
    decreases cs.len(),
{
    if cs.len() == 0 {
        Seq::empty()
    } else {
        command_elements(cs.drop_last()) + "<command>"@ + cs.last() + "</command>"@
    }
}

/// The `task` element: its name and capabilities as attributes, then its purpose and
/// commands.
pub open spec fn task_xml(t: Task) -> Seq<char> {
    "<task "@ + (match t.id@ {
        crate::structs::IdModel::Name(n) => "id=\""@ + n + "\" "@,
        _ => Seq::empty(),
    }) + (match t.capabilities {
        Some(c) => if c.bits() != 0 {
            "capabilities=\""@ + format_caps(c.bits()) + "\" "@
        } else {
            Seq::empty()
        },
        None => Seq::empty(),
    }) + ">"@ + (match t.purpose {
        Some(p) => "<purpose>"@ + p@ + "</purpose>"@,
        None => Seq::empty(),
    }) + command_elements(strings_view(t.commands@)) + "</task>"@
}

fn push_command_elements(out: &mut Vec<char>, cmds: &Vec<String>)
    ensures
        final(out)@ == old(out)@ + command_elements(strings_view(cmds@)),
{
    let mut i: usize = 0;
    while i < cmds.len()
        invariant
            i <= cmds.len(),
            out@ == old(out)@ + command_elements(strings_view(cmds@.subrange(0, i as int))),
        decreases cmds.len() - i,
    {
        push_str(out, "<command>");
        push_str(out, cmds[i].as_str());
        push_str(out, "</command>");
        let ghost pre = strings_view(cmds@.subrange(0, i as int));
        let ghost post = strings_view(cmds@.subrange(0, i + 1));
        assert(post.drop_last() =~= pre);
        assert(post.last() == cmds@[i as int]@);
        assert(out@ =~= old(out)@ + command_elements(post));
        i += 1;
    }
    assert(cmds@.subrange(0, cmds.len() as int) =~= cmds@);
}

impl ToXml for Task {
    open spec fn xml_spec(&self) -> Seq<char> {
        task_xml(*self)
    }

    fn to_xml_string(&self) -> (r: String) {
        let mut out: Vec<char> = Vec::new();
        push_str(&mut out, "<task ");
        let ghost a = out@;
        match &self.id {
            crate::structs::IdTask::Name(n) => {
                push_str(&mut out, "id=\"");
                push_str(&mut out, n.as_str());
                push_str(&mut out, "\" ");
            },
            crate::structs::IdTask::Number(_) => {},
        }
        let ghost b = out@;
        match &self.capabilities {
            Some(c) => {
                if c.is_not_empty() {
                    push_str(&mut out, "capabilities=\"");
                    push_str(&mut out, c.to_string().as_str());
                    push_str(&mut out, "\" ");
                }
            },
            None => {},
        }
        let ghost c = out@;
        push_str(&mut out, ">");
        match &self.purpose {
            Some(p) => {
                push_str(&mut out, "<purpose>");
                push_str(&mut out, p.as_str());
                push_str(&mut out, "</purpose>");
            },
            None => {},
        }
        let ghost d = out@;
        push_command_elements(&mut out, &self.commands);
        push_str(&mut out, "</task>");
        assert(out@ =~= task_xml(*self));
        string_of(&out)
    }
}

/// The `user` elements of a role's actors.
pub open spec fn user_elements(us: Seq<Seq<char>>) -> Seq<char>
    decreases us.len(),
{
    if us.len() == 0 {
        Seq::empty()
    } else {
        user_elements(us.drop_last()) + "<user name=\""@ + us.last() + "\"/>\n"@
    }
}

/// The `groups` elements of a role's actors, each group-set joined with commas.
pub open spec fn group_elements(gs: Seq<crate::structs::Groups>) -> Seq<char>
    decreases gs.len(),
{
    if gs.len() == 0 {
        Seq::empty()
    } else {
        group_elements(gs.drop_last()) + "<groups names=\""@ + join(dedup(gs.last()@), ","@) + "\"/>\n"@
    }
}

/// The `task` elements of a role.
pub open spec fn task_elements(ts: Seq<Task>) -> Seq<char>
    decreases ts.len(),
{
    if ts.len() == 0 {
        Seq::empty()
    } else {
        task_elements(ts.drop_last()) + task_xml(ts.last())
    }
}

/// The `role` element: its name, its actors when it has any, and its tasks.
pub open spec fn role_xml(r: Role) -> Seq<char> {
    "<role name=\""@ + r.name@ + "\" >"@ + (if r.users@.len() > 0 || r.groups@.len() > 0 {
        "<actors>\n"@ + user_elements(strings_view(r.users@)) + group_elements(r.groups@)
            + "</actors>\n"@
    } else {
        Seq::empty()
    }) + task_elements(r.tasks@) + "</role>"@
}

fn push_actors(out: &mut Vec<char>, r: &Role)
    ensures
        final(out)@ == old(out)@ + user_elements(strings_view(r.users@)) + group_elements(r.groups@),
{
    let mut i: usize = 0;
    while i < r.users.len()
        invariant
            i <= r.users.len(),
            out@ == old(out)@ + user_elements(strings_view(r.users@.subrange(0, i as int))),
        decreases r.users.len() - i,
    {
        push_str(out, "<user name=\"");
        push_str(out, r.users[i].as_str());
        push_str(out, "\"/>\n");
        let ghost pre = strings_view(r.users@.subrange(0, i as int));
        let ghost post = strings_view(r.users@.subrange(0, i + 1));
        assert(post.drop_last() =~= pre);
        assert(out@ =~= old(out)@ + user_elements(post));
        i += 1;
    }
    assert(r.users@.subrange(0, r.users.len() as int) =~= r.users@);
    let ghost mid = out@;
    let mut k: usize = 0;
    while k < r.groups.len()
        invariant
            k <= r.groups.len(),
            out@ == mid + group_elements(r.groups@.subrange(0, k as int)),
        decreases r.groups.len() - k,
    {
        push_str(out, "<groups names=\"");
        push_str(out, r.groups[k].join(",").as_str());
        push_str(out, "\"/>\n");
        assert(r.groups@.subrange(0, k + 1).drop_last() =~= r.groups@.subrange(0, k as int));
        assert(out@ =~= mid + group_elements(r.groups@.subrange(0, k + 1)));
        k += 1;
    }
    assert(r.groups@.subrange(0, r.groups.len() as int) =~= r.groups@);
}

impl ToXml for Role {
    open spec fn xml_spec(&self) -> Seq<char> {
        role_xml(*self)
    }

    fn to_xml_string(&self) -> (r: String) {
        let mut out: Vec<char> = Vec::new();
        push_str(&mut out, "<role name=\"");
        push_str(&mut out, self.name.as_str());
        push_str(&mut out, "\" >");
        let ghost a = out@;
        if self.users.len() > 0 || self.groups.len() > 0 {
            push_str(&mut out, "<actors>\n");
            push_actors(&mut out, self);
            push_str(&mut out, "</actors>\n");
        }
        let ghost b = out@;
        let mut i: usize = 0;
        while i < self.tasks.len()
            invariant
                i <= self.tasks.len(),
                out@ == b + task_elements(self.tasks@.subrange(0, i as int)),
            decreases self.tasks.len() - i,
        {
            let t = self.tasks[i].to_xml_string();
            push_str(&mut out, t.as_str());
            assert(self.tasks@.subrange(0, i + 1).drop_last() =~= self.tasks@.subrange(0, i as int));
            assert(out@ =~= b + task_elements(self.tasks@.subrange(0, i + 1)));
            i += 1;
        }
        assert(self.tasks@.subrange(0, self.tasks.len() as int) =~= self.tasks@);
        push_str(&mut out, "</role>");
        assert(out@ =~= role_xml(*self));
        string_of(&out)
    }
}

/// The `role` elements of a tree.
pub open spec fn role_elements(rs: Seq<Role>) -> Seq<char>
    decreases rs.len(),
{
    if rs.len() == 0 {
        Seq::empty()
    } else {
        role_elements(rs.drop_last()) + role_xml(rs.last())
    }
}

/// The root element: the version, the global options when set, and the roles.
pub open spec fn roles_xml(r: Roles) -> Seq<char> {
    "<rootasrole version=\""@ + r.version@ + "\">"@ + (match r.options {
        Some(o) => opt_xml(o),
        None => Seq::empty(),
    }) + "<roles>"@ + role_elements(r.roles@) + "</roles></rootasrole>"@
}

impl ToXml for Roles {
    open spec fn xml_spec(&self) -> Seq<char> {
        roles_xml(*self)
    }

    fn to_xml_string(&self) -> (r: String) {
        let mut out: Vec<char> = Vec::new();
        push_str(&mut out, "<rootasrole version=\"");
        push_str(&mut out, self.version.as_str());
        push_str(&mut out, "\">");
        let ghost a = out@;
        match &self.options {
            Some(o) => {
                push_str(&mut out, o.to_xml_string().as_str());
            },
            None => {},
        }
        push_str(&mut out, "<roles>");
        let ghost b = out@;
        let mut i: usize = 0;
        while i < self.roles.len()
            invariant
                i <= self.roles.len(),
                out@ == b + role_elements(self.roles@.subrange(0, i as int)),
            decreases self.roles.len() - i,
        {
            let t = self.roles[i].to_xml_string();
            push_str(&mut out, t.as_str());
            assert(self.roles@.subrange(0, i + 1).drop_last() =~= self.roles@.subrange(0, i as int));
            assert(out@ =~= b + role_elements(self.roles@.subrange(0, i + 1)));
            i += 1;
        }
        assert(self.roles@.subrange(0, self.roles.len() as int) =~= self.roles@);
        push_str(&mut out, "</roles></rootasrole>");
        assert(out@ =~= roles_xml(*self));
        string_of(&out)
    }
}

} // verus!
