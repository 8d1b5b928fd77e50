//! The schema: value types and per-module property definitions that give
//! configuration bytes their meaning.
//!
//! Every module shares three common properties — the UID, the module type
//! id, and the name — which are merged into every loaded definition and
//! stand in for unknown module types.

use std::collections::BTreeMap;

use vstd::prelude::*;

use crate::config::Value;
use crate::text::{bool_seq, dec_seq, hex_seq, push_dec, push_hex, render_text};

verus! {

broadcast use
    vstd::std_specs::btree::group_btree_axioms,
    vstd::laws_cmp::group_laws_cmp,
;

/// The value types a property can carry.  Fixed-width types travel
/// big-endian on the wire.
#[derive(Debug, Clone, Copy, PartialEq, Eq, Structural)]
pub enum ValueType {
    /// One byte.
    U8,
    /// Two bytes, big-endian.
    U16,
    /// Four bytes, big-endian.
    U32,
    /// Raw bytes rendered as text.
    Text,
    /// One byte, zero meaning false.
    Boolean,
    /// A contiguous array of bytes.
    VectorU8,
    /// A contiguous array of big-endian 16-bit values.
    VectorU16,
}

/// Whether a decoded value carries the given type.
pub open spec fn type_matches(t: ValueType, v: crate::config::ValueView) -> bool {
    match t {
        ValueType::U8 => v is U8,
        ValueType::U16 => v is U16,
        ValueType::U32 => v is U32,
        ValueType::Text => v is Text,
        ValueType::Boolean => v is Boolean,
        ValueType::VectorU8 => v is VectorU8,
        ValueType::VectorU16 => v is VectorU16,
    }
}

/// Decimal renderings of a byte vector, comma-separated.
pub open spec fn joined_dec8(bs: Seq<u8>) -> Seq<char>
    decreases bs.len(),
{
    if bs.len() == 0 {
        Seq::empty()
    } else if bs.len() == 1 {
        dec_seq(bs[0] as nat)
    } else {
        joined_dec8(bs.drop_last()) + ", "@ + dec_seq(bs.last() as nat)
    }
}

/// Decimal renderings of a 16-bit vector, comma-separated.
pub open spec fn joined_dec16(vs: Seq<u16>) -> Seq<char>
    decreases vs.len(),
{
    if vs.len() == 0 {
        Seq::empty()
    } else if vs.len() == 1 {
        dec_seq(vs[0] as nat)
    } else {
        joined_dec16(vs.drop_last()) + ", "@ + dec_seq(vs.last() as nat)
    }
}

/// Two-digit hexadecimal renderings of a byte vector, comma-separated.
pub open spec fn joined_hex8(bs: Seq<u8>) -> Seq<char>
    decreases bs.len(),
{
    if bs.len() == 0 {
        Seq::empty()
    } else if bs.len() == 1 {
        hex_seq(bs[0] as nat, 2)
    } else {
        joined_hex8(bs.drop_last()) + ", "@ + hex_seq(bs.last() as nat, 2)
    }
}

/// Four-digit hexadecimal renderings of a 16-bit vector, comma-separated.
pub open spec fn joined_hex16(vs: Seq<u16>) -> Seq<char>
    decreases vs.len(),
{
    if vs.len() == 0 {
        Seq::empty()
    } else if vs.len() == 1 {
        hex_seq(vs[0] as nat, 4)
    } else {
        joined_hex16(vs.drop_last()) + ", "@ + hex_seq(vs.last() as nat, 4)
    }
}

/// How the console renders a value in decimal.
pub open spec fn dec_rendering(v: crate::config::ValueView) -> Seq<char> {
    match v {
        crate::config::ValueView::U8(x) => dec_seq(x as nat),
        crate::config::ValueView::U16(x) => dec_seq(x as nat),
        crate::config::ValueView::U32(x) => dec_seq(x as nat),
        crate::config::ValueView::Text(s) => s,
        crate::config::ValueView::Boolean(b) => bool_seq(b),
        crate::config::ValueView::VectorU8(bs) => joined_dec8(bs),
        crate::config::ValueView::VectorU16(vs) => joined_dec16(vs),
    }
}

/// How the console renders a value in type-width hexadecimal.
pub open spec fn hex_rendering(v: crate::config::ValueView) -> Seq<char> {
    match v {
        crate::config::ValueView::U8(x) => hex_seq(x as nat, 2),
        crate::config::ValueView::U16(x) => hex_seq(x as nat, 4),
        crate::config::ValueView::U32(x) => hex_seq(x as nat, 8),
        crate::config::ValueView::Text(s) => s,
        crate::config::ValueView::Boolean(b) => bool_seq(b),
        crate::config::ValueView::VectorU8(bs) => joined_hex8(bs),
        crate::config::ValueView::VectorU16(vs) => joined_hex16(vs),
    }
}

impl ValueType {
    /// Renders a value of this type in decimal, as `list` shows it.
    pub fn to_string(&self, value: &Value) -> (r: String)
        requires
            type_matches(*self, value@),
        ensures
            r@ == dec_rendering(value@),
    {
        match value {
            Value::U8(x) => crate::text::to_dec_string(*x as u32),
            Value::U16(x) => crate::text::to_dec_string(*x as u32),
            Value::U32(x) => crate::text::to_dec_string(*x),
            Value::Text(s) => s.clone(),
            Value::Boolean(b) => crate::text::bool_to_string(*b),
            Value::VectorU8(bs) => {
                let mut out = String::new();
                let mut i: usize = 0;
                while i < bs.len()
                    invariant
                        i <= bs@.len(),
                        out@ == joined_dec8(bs@.take(i as int)),
                    decreases bs@.len() - i,
                {
                    if i > 0 {
                        out.append(", ");
                    }
                    push_dec(&mut out, bs[i] as u32);
                    i = i + 1;
                    proof {
                        assert(bs@.take(i as int).drop_last() =~= bs@.take(i as int - 1));
                        assert(out@ =~= joined_dec8(bs@.take(i as int)));
                    }
                }
                proof {
                    assert(bs@.take(bs@.len() as int) =~= bs@);
                }
                out
            },
            Value::VectorU16(vs) => {
                let mut out = String::new();
                let mut i: usize = 0;
                while i < vs.len()
                    invariant
                        i <= vs@.len(),
                        out@ == joined_dec16(vs@.take(i as int)),
                    decreases vs@.len() - i,
                {
                    if i > 0 {
                        out.append(", ");
                    }
                    push_dec(&mut out, vs[i] as u32);
                    i = i + 1;
                    proof {
                        assert(vs@.take(i as int).drop_last() =~= vs@.take(i as int - 1));
                        assert(out@ =~= joined_dec16(vs@.take(i as int)));
                    }
                }
                proof {
                    assert(vs@.take(vs@.len() as int) =~= vs@);
                }
                out
            },
        }
    }

    /// Renders a value of this type in type-width hexadecimal, as the
    /// configuration listing shows it.
    pub fn to_hex(&self, value: &Value) -> (r: String)
        requires
            type_matches(*self, value@),
        ensures
            r@ == hex_rendering(value@),
    {
        match value {
            Value::U8(x) => crate::text::to_hex_string(*x as u32, 2),
            Value::U16(x) => crate::text::to_hex_string(*x as u32, 4),
            Value::U32(x) => crate::text::to_hex_string(*x, 8),
            Value::Text(s) => s.clone(),
            Value::Boolean(b) => crate::text::bool_to_string(*b),
            Value::VectorU8(bs) => {
                let mut out = String::new();
                let mut i: usize = 0;
                while i < bs.len()
                    invariant
                        i <= bs@.len(),
                        out@ == joined_hex8(bs@.take(i as int)),
                    decreases bs@.len() - i,
                {
                    if i > 0 {
                        out.append(", ");
                    }
                    push_hex(&mut out, bs[i] as u32, 2);
                    i = i + 1;
                    proof {
                        assert(bs@.take(i as int).drop_last() =~= bs@.take(i as int - 1));
                        assert(out@ =~= joined_hex8(bs@.take(i as int)));
                    }
                }
                proof {
                    assert(bs@.take(bs@.len() as int) =~= bs@);
                }
                out
            },
            Value::VectorU16(vs) => {
                let mut out = String::new();
                let mut i: usize = 0;
                while i < vs.len()
                    invariant
                        i <= vs@.len(),
                        out@ == joined_hex16(vs@.take(i as int)),
                    decreases vs@.len() - i,
                {
                    if i > 0 {
                        out.append(", ");
                    }
                    push_hex(&mut out, vs[i] as u32, 4);
                    i = i + 1;
                    proof {
                        assert(vs@.take(i as int).drop_last() =~= vs@.take(i as int - 1));
                        assert(out@ =~= joined_hex16(vs@.take(i as int)));
                    }
                }
                proof {
                    assert(vs@.take(vs@.len() as int) =~= vs@);
                }
                out
            },
        }
    }
}

/// The definition of one property: its selector, its display name, the
/// type its bytes carry, optional labels for enumerated values, and
/// whether the peer refuses writes.
#[derive(Debug)]
pub struct PropertyDef {
    /// The property selector.
    pub id: u8,
    /// The display name.
    pub name: String,
    /// The type of the property's bytes.
    pub value_type: ValueType,
    /// Labels indexed by the property's value, for enumerated properties.
    pub enum_names: Option<Vec<String>>,
    /// Whether the property refuses writes.
    pub read_only: Option<bool>,
}

/// The mathematical value of a property definition.
pub struct PropertyDefView {
    /// The property selector.
    pub id: u8,
    /// The display name.
    pub name: Seq<char>,
    /// The type of the property's bytes.
    pub value_type: ValueType,
    /// Labels indexed by the property's value.
    pub enum_names: Option<Seq<Seq<char>>>,
    /// Whether the property refuses writes.
    pub read_only: Option<bool>,
}

impl View for PropertyDef {
    type V = PropertyDefView;

    open spec fn view(&self) -> PropertyDefView {
        PropertyDefView {
            id: self.id,
            name: self.name@,
            value_type: self.value_type,
            enum_names: match self.enum_names {
                Some(ns) => Some(ns.deep_view()),
                None => None,
            },
            read_only: self.read_only,
        }
    }
}

impl DeepView for PropertyDef {
    type V = PropertyDefView;

    open spec fn deep_view(&self) -> PropertyDefView {
        self.view()
    }
}

impl PropertyDef {
    /// A field-preserving copy.
    pub fn duplicate(&self) -> (r: Self)
        ensures
            r@ == self@,
    {
        let enum_names = match &self.enum_names {
            Some(ns) => {
                let mut out: Vec<String> = Vec::new();
                let mut i: usize = 0;
                while i < ns.len()
                    invariant
                        i <= ns@.len(),
                        out@.len() == i,
                        forall|j: int| 0 <= j < i ==> (#[trigger] out@[j])@ == ns@[j]@,
                    decreases ns@.len() - i,
                {
                    let item = ns[i].clone();
                    out.push(item);
                    i = i + 1;
                }
                proof {
                    assert(out.deep_view() =~~= ns.deep_view());
                }
                Some(out)
            },
            None => None,
        };
        let r = PropertyDef {
            id: self.id,
            name: self.name.clone(),
            value_type: self.value_type,
            enum_names,
            read_only: self.read_only,
        };
        proof {
            assert(r@ == self@);
        }
        r
    }
}

/// The module type id that stands for "unknown".
pub const UNKNOWN_MODULE_TYPE: u16 = 0xffff;

/// The common property definitions by id: 0 is the UID, 1 the module
/// type, 2 the name.  Other ids have no common definition; the value
/// here for them is arbitrary.
pub open spec fn common_property_def_view(id: u8) -> PropertyDefView {
    if id == 0 {
        PropertyDefView {
            id: 0,
            name: "module_uid"@,
            value_type: ValueType::U32,
            enum_names: None,
            read_only: Some(true),
        }
    } else if id == 1 {
        PropertyDefView {
            id: 1,
            name: "module_type"@,
            value_type: ValueType::U16,
            enum_names: None,
            read_only: Some(true),
        }
    } else {
        PropertyDefView {
            id: 2,
            name: "name"@,
            value_type: ValueType::Text,
            enum_names: None,
            read_only: None,
        }
    }
}

/// The common definition of property `id`, for the three ids every
/// module shares.
pub fn common_property_def(id: u8) -> (r: Option<PropertyDef>)
    ensures
        match r {
            Some(d) => id <= 2 && d@ == common_property_def_view(id),
            None => id > 2,
        },
{
    if id == 0 {
        Some(PropertyDef {
            id: 0,
            name: String::from_str("module_uid"),
            value_type: ValueType::U32,
            enum_names: None,
            read_only: Some(true),
        })
    } else if id == 1 {
        Some(PropertyDef {
            id: 1,
            name: String::from_str("module_type"),
            value_type: ValueType::U16,
            enum_names: None,
            read_only: Some(true),
        })
    } else if id == 2 {
        Some(PropertyDef {
            id: 2,
            name: String::from_str("name"),
            value_type: ValueType::Text,
            enum_names: None,
            read_only: None,
        })
    } else {
        None
    }
}

/// A module description as a schema file declares it, before the common
/// properties are merged in.
#[derive(Debug)]
pub struct ModuleDesc {
    /// The module type id the description is for.
    pub module_type: u16,
    /// The module type's display name.
    pub module_type_name: String,
    /// The declared properties; empty slots are skipped.
    pub properties: Vec<Option<PropertyDef>>,
}

/// A module definition as the codec uses it: the declared properties
/// merged with the common ones, indexed by property id.
#[derive(Debug)]
pub struct ModuleDef {
    /// The module type id.
    pub module_type: u16,
    /// The module type's display name.
    pub module_type_name: String,
    /// The property definitions, keyed by property id.
    pub properties: BTreeMap<u8, PropertyDef>,
}

/// A property-definition map by mathematical value.
pub open spec fn def_views(m: Map<u8, PropertyDef>) -> Map<u8, PropertyDefView> {
    m.map_values(|d: PropertyDef| d@)
}

/// Folds declared properties into a definition map, in declaration
/// order; a later declaration of the same id wins.
pub open spec fn inserted_props(
    m: Map<u8, PropertyDefView>,
    ps: Seq<Option<PropertyDefView>>,
) -> Map<u8, PropertyDefView>
    decreases ps.len(),
{
    if ps.len() == 0 {
        m
    } else {
        let m2 = match ps[0] {
            Some(p) => m.insert(p.id, p),
            None => m,
        };
        inserted_props(m2, ps.drop_first())
    }
}

/// Folding declarations keeps every definition under its own id.
proof fn lemma_inserted_props_ids(m: Map<u8, PropertyDefView>, ps: Seq<Option<PropertyDefView>>)
    requires
        forall|k: u8| #[trigger] m.contains_key(k) ==> m[k].id == k,
    ensures
        forall|k: u8| #[trigger]
            inserted_props(m, ps).contains_key(k) ==> inserted_props(m, ps)[k].id == k,
    decreases ps.len(),
{
    if ps.len() > 0 {
        let m2 = match ps[0] {
            Some(p) => m.insert(p.id, p),
            None => m,
        };
        lemma_inserted_props_ids(m2, ps.drop_first());
    }
}

/// The common definitions laid over a property map.
pub open spec fn with_common_props(m: Map<u8, PropertyDefView>) -> Map<u8, PropertyDefView> {
    m.insert(0, common_property_def_view(0)).insert(1, common_property_def_view(1)).insert(
        2,
        common_property_def_view(2),
    )
}

/// Folding one more declaration extends the fold from the right.
proof fn lemma_inserted_props_push(
    m: Map<u8, PropertyDefView>,
    ps: Seq<Option<PropertyDefView>>,
    p: Option<PropertyDefView>,
)
    ensures
        inserted_props(m, ps.push(p)) == (match p {
            Some(d) => inserted_props(m, ps).insert(d.id, d),
            None => inserted_props(m, ps),
        }),
    decreases ps.len(),
{
    let m_first = match ps.push(p)[0] {
        Some(d) => m.insert(d.id, d),
        None => m,
    };
    if ps.len() == 0 {
        assert(ps.push(p)[0] == p);
        assert(ps.push(p).drop_first() =~= Seq::<Option<PropertyDefView>>::empty());
        assert(inserted_props(m_first, Seq::<Option<PropertyDefView>>::empty()) == m_first);
        assert(inserted_props(m, ps.push(p)) == m_first);
        assert(inserted_props(m, ps) == m);
    } else {
        assert(ps.push(p)[0] == ps[0]);
        assert(ps.push(p).drop_first() =~= ps.drop_first().push(p));
        assert(inserted_props(m, ps.push(p)) == inserted_props(
            m_first,
            ps.drop_first().push(p),
        ));
        lemma_inserted_props_push(m_first, ps.drop_first(), p);
        assert(inserted_props(m, ps) == inserted_props(m_first, ps.drop_first()));
    }
}

impl ModuleDef {
    /// The definition's property map, by mathematical value.
    pub closed spec fn props_map(&self) -> Map<u8, PropertyDefView> {
        def_views(self.properties@)
    }

    /// A definition is well-formed when every property sits under its
    /// own id.
    pub open spec fn wf(&self) -> bool {
        forall|k: u8| #[trigger] self.props_map().contains_key(k) ==> self.props_map()[k].id == k
    }

    /// Merges a declared description into a definition: its properties
    /// in declaration order, then the common ones on top.
    pub fn from_desc(module_desc: ModuleDesc) -> (r: Self)
        ensures
            r.module_type == module_desc.module_type,
            r.module_type_name@ == module_desc.module_type_name@,
            r.props_map() == with_common_props(
                inserted_props(
                    Map::<u8, PropertyDefView>::empty(),
                    module_desc.properties.deep_view(),
                ),
            ),
            r.wf(),
    {
        let ModuleDesc { module_type, module_type_name, properties } = module_desc;
        let ghost decls = properties.deep_view();
        let mut map: BTreeMap<u8, PropertyDef> = BTreeMap::new();
        proof {
            assert(def_views(map@) =~= inserted_props(
                Map::<u8, PropertyDefView>::empty(),
                decls.take(0),
            ));
        }
        let mut i: usize = 0;
        while i < properties.len()
            invariant
                i <= properties@.len(),
                decls == properties.deep_view(),
                decls.len() == properties@.len(),
                def_views(map@) == inserted_props(
                    Map::<u8, PropertyDefView>::empty(),
                    decls.take(i as int),
                ),
            decreases properties@.len() - i,
        {
            match &properties[i] {
                Some(property) => {
                    let dup = property.duplicate();
                    map.insert(dup.id, dup);
                },
                None => {},
            }
            proof {
                assert(decls.take(i as int + 1) =~= decls.take(i as int).push(decls[i as int]));
                lemma_inserted_props_push(
                    Map::<u8, PropertyDefView>::empty(),
                    decls.take(i as int),
                    decls[i as int],
                );
                assert(def_views(map@) =~= inserted_props(
                    Map::<u8, PropertyDefView>::empty(),
                    decls.take(i as int + 1),
                ));
            }
            i = i + 1;
        }
        proof {
            assert(decls.take(decls.len() as int) =~= decls);
        }
        let ghost declared = inserted_props(Map::<u8, PropertyDefView>::empty(), decls);
        let def0 = match common_property_def(0) {
            Some(d) => d,
            None => {
                proof {
                    assert(false);
                }
                PropertyDef {
                    id: 0,
                    name: String::new(),
                    value_type: ValueType::U32,
                    enum_names: None,
                    read_only: None,
                }
            },
        };
        map.insert(0, def0);
        proof {
            assert(def_views(map@) =~= declared.insert(0, common_property_def_view(0)));
        }
        let def1 = match common_property_def(1) {
            Some(d) => d,
            None => {
                proof {
                    assert(false);
                }
                PropertyDef {
                    id: 1,
                    name: String::new(),
                    value_type: ValueType::U16,
                    enum_names: None,
                    read_only: None,
                }
            },
        };
        map.insert(1, def1);
        proof {
            assert(def_views(map@) =~= declared.insert(0, common_property_def_view(0)).insert(
                1,
                common_property_def_view(1),
            ));
        }
        let def2 = match common_property_def(2) {
            Some(d) => d,
            None => {
                proof {
                    assert(false);
                }
                PropertyDef {
                    id: 2,
                    name: String::new(),
                    value_type: ValueType::Text,
                    enum_names: None,
                    read_only: None,
                }
            },
        };
        map.insert(2, def2);
        proof {
            assert(def_views(map@) =~= with_common_props(declared));
            lemma_inserted_props_ids(Map::<u8, PropertyDefView>::empty(), decls);
        }
        ModuleDef { module_type, module_type_name, properties: map }
    }

    /// The definition every unknown module type falls back to: only the
    /// common properties.
    pub fn common() -> (r: Self)
        ensures
            r.module_type == UNKNOWN_MODULE_TYPE,
            r.module_type_name@ == "unknown"@,
            r.props_map() == with_common_props(Map::<u8, PropertyDefView>::empty()),
    {
        let desc = ModuleDesc {
            module_type: UNKNOWN_MODULE_TYPE,
            module_type_name: String::from_str("unknown"),
            properties: Vec::new(),
        };
        proof {
            assert(desc.properties.deep_view() =~= Seq::<Option<PropertyDefView>>::empty());
        }
        Self::from_desc(desc)
    }

    /// A field-preserving copy.
    pub fn duplicate(&self) -> (r: Self)
        ensures
            r.module_type == self.module_type,
            r.module_type_name@ == self.module_type_name@,
            r.props_map() == self.props_map(),
    {
        let mut map: BTreeMap<u8, PropertyDef> = BTreeMap::new();
        proof {
            assert(def_views(map@) =~= Map::<u8, PropertyDefView>::empty());
        }
        let mut id: u16 = 0;
        while id <= 255
            invariant
                id <= 256,
                forall|k: u8|
                    #[trigger] def_views(map@).contains_key(k) <==> (k < id
                        && self.props_map().contains_key(k)),
                forall|k: u8| #[trigger]
                    def_views(map@).contains_key(k) ==> def_views(map@)[k]
                        == self.props_map()[k],
            decreases 256 - id,
        {
            let key = id as u8;
            let ghost before = map@;
            match self.properties.get(&key) {
                Some(d) => {
                    let dup = d.duplicate();
                    map.insert(key, dup);
                    proof {
                        assert(self.props_map().contains_key(key) && self.props_map()[key]
                            == d@);
                        assert(def_views(map@) =~= def_views(before).insert(key, d@));
                    }
                },
                None => {
                    proof {
                        assert(!self.props_map().contains_key(key));
                    }
                },
            }
            id = id + 1;
        }
        let r = ModuleDef {
            module_type: self.module_type,
            module_type_name: self.module_type_name.clone(),
            properties: map,
        };
        proof {
            assert(r.props_map() =~= self.props_map());
        }
        r
    }

    /// The first property definition, in id order, whose name is
    /// `name`; `None` when no property carries that name.
    pub fn get_property_def_by_name(&self, name: &String) -> (r: Option<&PropertyDef>)
        requires
            self.wf(),
        ensures
            match r {
                Some(d) => {
                    &&& self.props_map().contains_key(d@.id)
                    &&& self.props_map()[d@.id] == d@
                    &&& d@.name == name@
                    &&& forall|k: u8|
                        k < d@.id && #[trigger] self.props_map().contains_key(k)
                            ==> self.props_map()[k].name != name@
                },
                None => forall|k: u8| #[trigger]
                    self.props_map().contains_key(k) ==> self.props_map()[k].name != name@,
            },
    {
        let mut id: u16 = 0;
        while id <= 255
            invariant
                id <= 256,
                self.wf(),
                forall|k: u8|
                    k < id && #[trigger] self.props_map().contains_key(k)
                        ==> self.props_map()[k].name != name@,
            decreases 256 - id,
        {
            let key = id as u8;
            match self.properties.get(&key) {
                Some(d) => {
                    if d.name.eq(name) {
                        proof {
                            assert(self.props_map().contains_key(key) && self.props_map()[key]
                                == d@);
                        }
                        return Some(d);
                    }
                },
                None => {},
            }
            id = id + 1;
        }
        None
    }

    /// The definition of property `id`, if the module has one.
    pub fn get_property_by_id(&self, id: u8) -> (r: Option<&PropertyDef>)
        ensures
            match r {
                Some(d) => self.props_map().contains_key(id) && self.props_map()[id] == d@,
                None => !self.props_map().contains_key(id),
            },
    {
        self.properties.get(&id)
    }
}

} // verus!
