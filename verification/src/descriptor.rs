use vstd::prelude::*;

verus! {

#[verifier::external_type_specification]
#[verifier::external_body]
pub struct ExIni(ini::Ini);

#[verifier::external_type_specification]
#[verifier::external_body]
pub struct ExProperties(ini::Properties);

/// The key/value table a descriptor text parses to, flattened to
/// (section name, key) pairs — or nothing, when the text is rejected.
pub uninterp spec fn parsed_ini(text: Seq<char>) -> Option<
    Map<(Seq<char>, Seq<char>), Seq<char>>,
>;

/// The (section name, key) table a parsed document holds.
pub uninterp spec fn ini_table(doc: ini::Ini) -> Map<(Seq<char>, Seq<char>), Seq<char>>;

/// The key/value pairs one section holds.
pub uninterp spec fn props_table(p: ini::Properties) -> Map<Seq<char>, Seq<char>>;

/// The value under (section, key), if any.
pub open spec fn table_get(
    t: Map<(Seq<char>, Seq<char>), Seq<char>>,
    section: Seq<char>,
    key: Seq<char>,
) -> Option<Seq<char>> {
    if t.contains_key((section, key)) {
        Some(t[(section, key)])
    } else {
        None
    }
}

/// Whether a descriptor text yields an entry: it must parse, and its
/// `Desktop Entry` section must hold a `Name` and a recognized `Type`.
pub open spec fn descriptor_accepts(pt: Option<Map<(Seq<char>, Seq<char>), Seq<char>>>) -> bool {
    match pt {
        Option::Some(t) => {
            &&& table_get(t, "Desktop Entry"@, "Name"@) is Some
            &&& (table_get(t, "Desktop Entry"@, "Type"@) matches Some(tv) && (tv == "Application"@
                || tv == "Link"@ || tv == "Directory"@))
        },
        Option::None => false,
    }
}

/// Relies on ini::Ini::load_from_str: parsing is a function of the text
/// alone, and on success the document holds the text's table.
#[verifier::external_body]
pub(crate) fn parse_ini(text: &str) -> (r: Option<ini::Ini>)
    ensures
        r matches Some(doc) ==> parsed_ini(text@) == Some(ini_table(doc)),
        r is None ==> parsed_ini(text@) is None,
{
    ini::Ini::load_from_str(text).ok()
}

/// Relies on ini::Ini::section: the named section holds exactly the
/// document's pairs under that section name; when the lookup finds
/// nothing, the document holds no pair under that name.
#[verifier::external_body]
pub(crate) fn ini_section<'a>(doc: &'a ini::Ini, name: &str) -> (r: Option<&'a ini::Properties>)
    ensures
        r matches Some(p) ==> (forall|k: Seq<char>|
            (#[trigger] props_table(*p).contains_key(k)) <==> ini_table(*doc).contains_key(
                (name@, k),
            )),
        r matches Some(p) ==> (forall|k: Seq<char>|
            (#[trigger] props_table(*p).contains_key(k)) ==> props_table(*p)[k] == ini_table(
                *doc,
            )[(name@, k)]),
        r is None ==> (forall|k: Seq<char>|
            !(#[trigger] ini_table(*doc).contains_key((name@, k)))),
{
    doc.section(Some(name))
}

/// Relies on ini::Properties::get: the value stored under the key, if any.
#[verifier::external_body]
pub(crate) fn props_get(p: &ini::Properties, key: &str) -> (r: Option<String>)
    ensures
        r matches Some(v) ==> props_table(*p).contains_key(key@) && v@ == props_table(*p)[key@],
        r is None ==> !props_table(*p).contains_key(key@),
{
    p.get(key).map(|v| v.to_string())
}

} // verus!
