use vstd::prelude::*;
use crate::descriptor::{descriptor_accepts, ini_section, parse_ini, parsed_ini, props_get, table_get};
use crate::text::{chars_of, str_eq};

verus! {

/// The kind of a launchable entry; only an application carries a launch
/// command.
#[derive(Clone, Debug)]
pub enum Type {
    Application(Option<String>),
    Link(String),
    Directory,
}

#[derive(Clone, Copy, Debug, PartialEq, Eq, Structural)]
pub struct ParseTypeError;

impl Type {
    /// Read a `Type` key of a descriptor. A link's target is filled in
    /// later, from the rest of the descriptor; here it starts empty.
    pub fn from_str(s: &str) -> (r: Result<Type, ParseTypeError>)
        ensures
            s@ == "Application"@ ==> r == Ok::<Type, ParseTypeError>(Type::Application(None)),
            s@ == "Link"@ ==> (r matches Ok(t) && t matches Type::Link(l) && l@
                == Seq::<char>::empty()),
            s@ == "Directory"@ ==> r == Ok::<Type, ParseTypeError>(Type::Directory),
            s@ != "Application"@ && s@ != "Link"@ && s@ != "Directory"@ ==> r == Err::<
                Type,
                ParseTypeError,
            >(ParseTypeError),
    {
        proof {
            reveal_strlit("Application");
            reveal_strlit("Link");
            reveal_strlit("Directory");
            assert("Application"@.len() == 11);
            assert("Link"@.len() == 4);
            assert("Directory"@.len() == 9);
        }
        if str_eq(s, "Application") {
            Ok(Type::Application(None))
        } else if str_eq(s, "Link") {
            Ok(Type::Link(String::new()))
        } else if str_eq(s, "Directory") {
            Ok(Type::Directory)
        } else {
            Err(ParseTypeError)
        }
    }

    /// The kind's name, as the descriptor format writes it.
    pub fn kind_name(&self) -> (r: &'static str)
        ensures
            self matches Type::Application(_) ==> r@ == "Application"@,
            self matches Type::Link(_) ==> r@ == "Link"@,
            self matches Type::Directory ==> r@ == "Directory"@,
    {
        match self {
            Type::Application(_) => "Application",
            Type::Link(_) => "Link",
            Type::Directory => "Directory",
        }
    }
}

/// A launchable entry of the corpus: its display name, the name's
/// characters precomputed for matching, its kind, and whether the
/// descriptor asked to keep it out of sight.
#[derive(Clone, Debug)]
pub struct Desktop {
    pub name: String,
    pub chars: Vec<char>,
    pub entry_type: Type,
    pub no_display: bool,
}

impl Desktop {
    /// `chars` is derived from `name` once at load and never recomputed.
    pub open spec fn wf(self) -> bool {
        self.chars@ == self.name@
    }

    /// Assemble an entry from the fields of one descriptor: `name` and the
    /// `Type` value are required, an application takes its launch command
    /// from the `Exec` value, a link's target repeats the name, and
    /// `NoDisplay` is true only when its value reads exactly `true`.
    pub fn from_fields(
        name: String,
        type_value: &str,
        exec_value: Option<String>,
        no_display_value: Option<&str>,
    ) -> (r: Option<Desktop>)
        ensures
            (r is Some) <==> (type_value@ == "Application"@ || type_value@ == "Link"@
                || type_value@ == "Directory"@),
            r matches Some(d) ==> {
                &&& d.wf()
                &&& d.name == name
                &&& d.no_display == (no_display_value matches Some(v) && v@ == "true"@)
                &&& (type_value@ == "Application"@ ==> (d.entry_type matches Type::Application(e)
                    && e == exec_value))
                &&& (type_value@ == "Link"@ ==> (d.entry_type matches Type::Link(l) && l == name))
                &&& (type_value@ == "Directory"@ ==> d.entry_type matches Type::Directory)
            },
    {
        let parsed = Type::from_str(type_value);
        let entry_type = match parsed {
            Ok(Type::Application(_)) => Type::Application(exec_value),
            Ok(Type::Link(_)) => Type::Link(name.clone()),
            Ok(Type::Directory) => Type::Directory,
            Err(_) => {
                return None;
            },
        };
        let no_display = match no_display_value {
            Some(v) => str_eq(v, "true"),
            None => false,
        };
        let chars = chars_of(name.as_str());
        Some(Desktop { name, chars, entry_type, no_display })
    }

    /// Parse one descriptor text into an entry: the text must parse as a
    /// key/value document whose `Desktop Entry` section holds a `Name` and
    /// a recognized `Type`; anything else yields nothing and the file is
    /// skipped. An application's launch command comes from `Exec`, a
    /// link's target repeats the name, and `NoDisplay` is true only when
    /// its value reads exactly `true`.
    pub fn load_from_str(text: &str) -> (r: Option<Desktop>)
        ensures
            (r is Some) == descriptor_accepts(parsed_ini(text@)),
            r matches Some(d) ==> {
                &&& parsed_ini(text@) matches Some(t)
                &&& table_get(t, "Desktop Entry"@, "Name"@) matches Some(name_v)
                &&& table_get(t, "Desktop Entry"@, "Type"@) matches Some(type_v)
                &&& d.wf()
                &&& d.name@ == name_v
                &&& d.no_display == (table_get(t, "Desktop Entry"@, "NoDisplay"@) matches Some(v)
                    && v == "true"@)
                &&& (type_v == "Application"@ ==> (d.entry_type matches Type::Application(e) && ((e
                    is Some) == (table_get(t, "Desktop Entry"@, "Exec"@) is Some)) && (e matches
                Some(cmd) ==> (table_get(t, "Desktop Entry"@, "Exec"@) matches Some(x) && cmd@
                    == x))))
                &&& (type_v == "Link"@ ==> (d.entry_type matches Type::Link(l) && l@ == name_v))
                &&& (type_v == "Directory"@ ==> d.entry_type is Directory)
            },
    {
        let doc = match parse_ini(text) {
            Some(doc) => doc,
            None => {
                return None;
            },
        };
        let section = match ini_section(&doc, "Desktop Entry") {
            Some(p) => p,
            None => {
                return None;
            },
        };
        let name = match props_get(section, "Name") {
            Some(v) => v,
            None => {
                return None;
            },
        };
        let type_value = match props_get(section, "Type") {
            Some(v) => v,
            None => {
                return None;
            },
        };
        let exec_value = props_get(section, "Exec");
        let no_display_value = props_get(section, "NoDisplay");
        let nd_ref = match &no_display_value {
            Some(v) => Some(v.as_str()),
            None => None,
        };
        Desktop::from_fields(name, type_value.as_str(), exec_value, nd_ref)
    }
}

} // verus!
