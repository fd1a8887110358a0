use vstd::prelude::*;
use crate::error::{HeadScratcherErrorDef, ParserError};
use crate::wasm_file::WasmFile;

verus! {

/// The stored element types of the format.
#[derive(Debug, Clone, Copy, PartialEq, Eq, Structural)]
pub enum NcType {
    Byte,
    Char,
    Short,
    Int,
    Float,
    Double,
}

/// The numeric tag of a type at the boundary.
pub open spec fn type_tag(t: NcType) -> usize {
    match t {
        NcType::Byte => 1,
        NcType::Char => 2,
        NcType::Short => 3,
        NcType::Int => 4,
        NcType::Float => 5,
        NcType::Double => 6,
    }
}

/// The size in bytes of one stored element of a type.
pub open spec fn ext_size(t: NcType) -> usize {
    match t {
        NcType::Byte => 1,
        NcType::Char => 1,
        NcType::Short => 2,
        NcType::Int => 4,
        NcType::Float => 4,
        NcType::Double => 8,
    }
}

impl NcType {
    pub fn tag(&self) -> (r: usize)
        ensures
            r == type_tag(*self),
    {
        match self {
            NcType::Byte => 1,
            NcType::Char => 2,
            NcType::Short => 3,
            NcType::Int => 4,
            NcType::Float => 5,
            NcType::Double => 6,
        }
    }

    pub fn extsize(&self) -> (r: usize)
        ensures
            r == ext_size(*self),
    {
        match self {
            NcType::Byte => 1,
            NcType::Char => 1,
            NcType::Short => 2,
            NcType::Int => 4,
            NcType::Float => 4,
            NcType::Double => 8,
        }
    }
}

/// The value of an attribute: text, or a numeric array that only the parser reads.
pub enum AttrValue {
    Text(String),
    Numeric,
}

pub struct Attribute {
    pub name: String,
    pub value: AttrValue,
}

pub struct Dimension {
    pub name: String,
    pub length: usize,
}

pub struct Variable {
    pub name: String,
    pub nc_type: NcType,
    /// Indices into the header's dimension list, in declared order.
    pub dims: Vec<usize>,
    pub attributes: Option<Vec<Attribute>>,
}

/// A parsed file header, as the parser produced it. A list the file does not declare is `None`.
pub struct Header {
    pub dims: Option<Vec<Dimension>>,
    pub vars: Option<Vec<Variable>>,
    pub attrs: Option<Vec<Attribute>>,
}

/// One variable as the metadata queries describe it.
pub struct JsVariable {
    pub name: String,
    pub kind: usize,
    pub size: usize,
    pub dimensions: Vec<String>,
    pub attributes: Vec<(String, String)>,
    pub length: usize,
}

pub struct JsDimension {
    pub name: String,
    pub length: usize,
}

/// An open file: its parsed header and the virtual file it was read from.
pub struct NetCDFHandle {
    header: Header,
    file: WasmFile,
}

/// The text-valued attributes of `attrs`, in order, as name and text.
pub open spec fn text_attrs(attrs: Seq<Attribute>) -> Seq<(Seq<char>, Seq<char>)>
    decreases attrs.len(),
{
    if attrs.len() == 0 {
        Seq::empty()
    } else {
        let rest = text_attrs(attrs.drop_last());
        match attrs.last().value {
            AttrValue::Text(t) => rest.push((attrs.last().name@, t@)),
            AttrValue::Numeric => rest,
        }
    }
}

pub open spec fn pairs_view(v: Seq<(String, String)>) -> Seq<(Seq<char>, Seq<char>)> {
    v.map_values(|p: (String, String)| (p.0@, p.1@))
}

pub open spec fn opt_attrs(a: Option<Vec<Attribute>>) -> Seq<Attribute> {
    match a {
        Some(v) => v@,
        None => Seq::empty(),
    }
}

pub open spec fn dims_of(h: Header) -> Seq<Dimension> {
    match h.dims {
        Some(v) => v@,
        None => Seq::empty(),
    }
}

/// Every dimension index names a dimension of `table`.
pub open spec fn dims_resolve(table: Seq<Dimension>, idx: Seq<usize>) -> bool {
    forall|k: int| 0 <= k < idx.len() ==> idx[k] < table.len()
}

/// The number of elements over the dimensions `idx`: the product of their lengths.
pub open spec fn element_count(table: Seq<Dimension>, idx: Seq<usize>) -> int
    decreases idx.len(),
{
    if idx.len() == 0 {
        1
    } else {
        element_count(table, idx.drop_last()) * table[idx.last() as int].length
    }
}

/// Every running product of the lengths, taken in order, fits in a `usize`.
pub open spec fn count_fits(table: Seq<Dimension>, idx: Seq<usize>) -> bool
    decreases idx.len(),
{
    idx.len() == 0 || (count_fits(table, idx.drop_last()) && element_count(table, idx)
        <= usize::MAX)
}

/// The variable `v` can be described: its dimensions resolve and its element count fits.
pub open spec fn describable(table: Seq<Dimension>, v: Variable) -> bool {
    dims_resolve(table, v.dims@) && count_fits(table, v.dims@)
}

/// `j` describes `v`: its name, type tag, element size, dimension names, text attributes
/// and element count.
pub open spec fn describes(table: Seq<Dimension>, v: Variable, j: JsVariable) -> bool {
    &&& j.name@ == v.name@
    &&& j.kind == type_tag(v.nc_type)
    &&& j.size == ext_size(v.nc_type)
    &&& j.dimensions@.len() == v.dims@.len()
    &&& forall|k: int|
        0 <= k < v.dims@.len() ==> #[trigger] j.dimensions@[k]@ == table[v.dims@[k] as int].name@
    &&& pairs_view(j.attributes@) == text_attrs(opt_attrs(v.attributes))
    &&& j.length == element_count(table, v.dims@)
}

/// The element size of the first variable named `name`; zero if there is none.
pub open spec fn size_of_named(vars: Seq<Variable>, name: Seq<char>) -> usize
    decreases vars.len(),
{
    if vars.len() == 0 {
        0
    } else if vars[0].name@ == name {
        ext_size(vars[0].nc_type)
    } else {
        size_of_named(vars.drop_first(), name)
    }
}

/// The text of the first attribute named `name`; none if there is none or it is not text.
pub open spec fn text_of_named(attrs: Seq<Attribute>, name: Seq<char>) -> Option<Seq<char>>
    decreases attrs.len(),
{
    if attrs.len() == 0 {
        None
    } else if attrs[0].name@ == name {
        match attrs[0].value {
            AttrValue::Text(t) => Some(t@),
            AttrValue::Numeric => None,
        }
    } else {
        text_of_named(attrs.drop_first(), name)
    }
}

pub open spec fn vars_of(h: Header) -> Seq<Variable> {
    match h.vars {
        Some(v) => v@,
        None => Seq::empty(),
    }
}

pub open spec fn attrs_of(h: Header) -> Seq<Attribute> {
    match h.attrs {
        Some(v) => v@,
        None => Seq::empty(),
    }
}

/// The text-valued attributes, as pairs of name and text.
fn text_attributes(attrs: &Option<Vec<Attribute>>) -> (r: Vec<(String, String)>)
    ensures
        pairs_view(r@) == text_attrs(opt_attrs(*attrs)),
{
    let mut out: Vec<(String, String)> = Vec::new();
    match attrs {
        None => {
            assert(pairs_view(out@) =~= text_attrs(opt_attrs(*attrs)));
            out
        },
        Some(list) => {
            let mut i: usize = 0;
            assert(list@.subrange(0, 0) =~= Seq::<Attribute>::empty());
            while i < list.len()
                invariant
                    0 <= i <= list@.len(),
                    pairs_view(out@) == text_attrs(list@.subrange(0, i as int)),
                decreases list@.len() - i,
            {
                let a = &list[i];
                assert(list@.subrange(0, i + 1).drop_last() =~= list@.subrange(0, i as int));
                match &a.value {
                    AttrValue::Text(t) => {
                        out.push((a.name.clone(), t.clone()));
                        assert(pairs_view(out@) =~= text_attrs(list@.subrange(0, i + 1)));
                    },
                    AttrValue::Numeric => {
                        assert(pairs_view(out@) =~= text_attrs(list@.subrange(0, i + 1)));
                    },
                }
                i = i + 1;
            }
            assert(list@.subrange(0, list@.len() as int) =~= list@);
            out
        },
    }
}

/// The names of the dimensions `idx`, in order; none if an index names no dimension.
fn dimension_names(table: &Vec<Dimension>, idx: &Vec<usize>) -> (r: Option<Vec<String>>)
    ensures
        r is Some <==> dims_resolve(table@, idx@),
        r is Some ==> {
            &&& r->Some_0@.len() == idx@.len()
            &&& forall|k: int|
                0 <= k < idx@.len() ==> #[trigger] r->Some_0@[k]@ == table@[idx@[k] as int].name@
        },
{
    let mut out: Vec<String> = Vec::new();
    let mut i: usize = 0;
    while i < idx.len()
        invariant
            0 <= i <= idx@.len(),
            out@.len() == i,
            forall|k: int| 0 <= k < i ==> idx@[k] < table@.len(),
            forall|k: int| 0 <= k < i ==> #[trigger] out@[k]@ == table@[idx@[k] as int].name@,
        decreases idx@.len() - i,
    {
        let d = idx[i];
        if d >= table.len() {
            return None;
        }
        out.push(table[d].name.clone());
        i = i + 1;
    }
    Some(out)
}

/// The element count over the dimensions `idx`; none if a running product overflows.
fn count_elements(table: &Vec<Dimension>, idx: &Vec<usize>) -> (r: Option<usize>)
    requires
        dims_resolve(table@, idx@),
    ensures
        r is Some <==> count_fits(table@, idx@),
        r is Some ==> r->Some_0 == element_count(table@, idx@),
{
    let mut count: usize = 1;
    let mut i: usize = 0;
    assert(idx@.subrange(0, 0) =~= Seq::<usize>::empty());
    while i < idx.len()
        invariant
            0 <= i <= idx@.len(),
            dims_resolve(table@, idx@),
            count_fits(table@, idx@.subrange(0, i as int)),
            count == element_count(table@, idx@.subrange(0, i as int)),
        decreases idx@.len() - i,
    {
        let d = idx[i];
        let ghost next = idx@.subrange(0, i + 1);
        assert(next.drop_last() =~= idx@.subrange(0, i as int));
        assert(next.last() == d);
        match count.checked_mul(table[d].length) {
            Some(c) => {
                count = c;
            },
            None => {
                assert(!count_fits(table@, next));
                proof { lemma_fits_prefix(table@, idx@, i + 1); }
                return None;
            },
        }
        i = i + 1;
    }
    assert(idx@.subrange(0, idx@.len() as int) =~= idx@);
    Some(count)
}

/// A running product that overflows on a prefix overflows on the whole.
proof fn lemma_fits_prefix(table: Seq<Dimension>, idx: Seq<usize>, n: int)
    requires
        0 <= n <= idx.len(),
        !count_fits(table, idx.subrange(0, n)),
    ensures
        !count_fits(table, idx),
    decreases idx.len() - n,
{
    if n < idx.len() {
        assert(idx.subrange(0, n + 1).drop_last() =~= idx.subrange(0, n));
        lemma_fits_prefix(table, idx, n + 1);
    } else {
        assert(idx.subrange(0, n) =~= idx);
    }
}

/// The description of one variable; none if it cannot be described.
fn describe(table: &Vec<Dimension>, v: &Variable) -> (r: Option<JsVariable>)
    ensures
        r is Some <==> describable(table@, *v),
        r is Some ==> describes(table@, *v, r->Some_0),
{
    let dimensions = match dimension_names(table, &v.dims) {
        Some(d) => d,
        None => return None,
    };
    let length = match count_elements(table, &v.dims) {
        Some(c) => c,
        None => return None,
    };
    Some(JsVariable {
        name: v.name.clone(),
        kind: v.nc_type.tag(),
        size: v.nc_type.extsize(),
        dimensions,
        attributes: text_attributes(&v.attributes),
        length,
    })
}

/// A handle over a parsed header and the file it came from.
pub fn new_wrapper(header: Header, file: WasmFile) -> (r: NetCDFHandle)
    ensures
        r.header() == header,
        r.vfile() == file,
{
    NetCDFHandle { header, file }
}

impl NetCDFHandle {
    pub closed spec fn header(&self) -> Header {
        self.header
    }

    pub closed spec fn vfile(&self) -> WasmFile {
        self.file
    }

    /// Opens a handle from what the parser returned for `file`: the parsed header, or its
    /// error in boundary-safe form.
    pub fn open(parsed: Result<Header, ParserError>, file: WasmFile) -> (r: Result<
        NetCDFHandle,
        HeadScratcherErrorDef,
    >)
        ensures
            r is Ok <==> parsed is Ok,
            r is Ok ==> r->Ok_0.header() == parsed->Ok_0 && r->Ok_0.vfile() == file,
            r is Err ==> crate::error::normalized(parsed->Err_0, r->Err_0),
    {
        match parsed {
            Ok(header) => Ok(NetCDFHandle { header, file }),
            Err(e) => Err(HeadScratcherErrorDef::from(e)),
        }
    }

    /// Describes every variable, in the header's order. Fails with `NoVariablesInFile`
    /// when the header declares none, and with `InvalidFile` when a variable names a
    /// dimension the header lacks or its element count does not fit in a `usize`.
    pub fn get_variables(&self) -> (r: Result<Vec<JsVariable>, HeadScratcherErrorDef>)
        ensures
            vars_of(self.header()).len() == 0 ==> r is Err && r->Err_0 is NoVariablesInFile,
            vars_of(self.header()).len() > 0 ==> {
                &&& r is Ok <==> forall|i: int|
                    0 <= i < vars_of(self.header()).len() ==> #[trigger] describable(
                        dims_of(self.header()),
                        vars_of(self.header())[i],
                    )
                &&& r is Err ==> r->Err_0 is InvalidFile
            },
            r is Ok ==> {
                &&& r->Ok_0@.len() == vars_of(self.header()).len()
                &&& forall|i: int|
                    0 <= i < r->Ok_0@.len() ==> #[trigger] describes(
                        dims_of(self.header()),
                        vars_of(self.header())[i],
                        r->Ok_0@[i],
                    )
            },
    {
        let vars = match &self.header.vars {
            Some(v) => v,
            None => return Err(HeadScratcherErrorDef::NoVariablesInFile),
        };
        if vars.len() == 0 {
            return Err(HeadScratcherErrorDef::NoVariablesInFile);
        }
        let empty: Vec<Dimension> = Vec::new();
        let table = match &self.header.dims {
            Some(d) => d,
            None => &empty,
        };
        assert(table@ == dims_of(self.header()));
        let mut out: Vec<JsVariable> = Vec::new();
        let mut i: usize = 0;
        while i < vars.len()
            invariant
                0 <= i <= vars@.len(),
                vars@ == vars_of(self.header()),
                table@ == dims_of(self.header()),
                out@.len() == i,
                forall|k: int| 0 <= k < i ==> #[trigger] describable(table@, vars@[k]),
                forall|k: int| 0 <= k < i ==> #[trigger] describes(table@, vars@[k], out@[k]),
            decreases vars@.len() - i,
        {
            match describe(table, &vars[i]) {
                Some(j) => out.push(j),
                None => return Err(HeadScratcherErrorDef::InvalidFile),
            }
            i = i + 1;
        }
        Ok(out)
    }

    /// Every declared dimension with its length, in order; empty if the header declares none.
    pub fn get_dimensions(&self) -> (r: Vec<JsDimension>)
        ensures
            r@.len() == dims_of(self.header()).len(),
            forall|i: int|
                0 <= i < r@.len() ==> #[trigger] r@[i].name@ == dims_of(self.header())[i].name@
                    && r@[i].length == dims_of(self.header())[i].length,
    {
        let mut out: Vec<JsDimension> = Vec::new();
        match &self.header.dims {
            None => out,
            Some(dims) => {
                let mut i: usize = 0;
                while i < dims.len()
                    invariant
                        0 <= i <= dims@.len(),
                        dims@ == dims_of(self.header()),
                        out@.len() == i,
                        forall|k: int|
                            0 <= k < i ==> #[trigger] out@[k].name@ == dims@[k].name@
                                && out@[k].length == dims@[k].length,
                    decreases dims@.len() - i,
                {
                    out.push(JsDimension { name: dims[i].name.clone(), length: dims[i].length });
                    i = i + 1;
                }
                out
            },
        }
    }

    /// The element size of the variable named `variable`; zero if there is none.
    pub fn get_variable_size(&self, variable: String) -> (r: usize)
        ensures
            r == size_of_named(vars_of(self.header()), variable@),
    {
        match &self.header.vars {
            None => 0,
            Some(vars) => {
                let mut i: usize = 0;
                assert(vars@.subrange(0, vars@.len() as int) =~= vars@);
                while i < vars.len()
                    invariant
                        0 <= i <= vars@.len(),
                        vars@ == vars_of(self.header()),
                        size_of_named(vars@, variable@) == size_of_named(
                            vars@.subrange(i as int, vars@.len() as int),
                            variable@,
                        ),
                    decreases vars@.len() - i,
                {
                    let ghost rest = vars@.subrange(i as int, vars@.len() as int);
                    assert(rest.drop_first() =~= vars@.subrange(i + 1, vars@.len() as int));
                    if vars[i].name == variable {
                        return vars[i].nc_type.extsize();
                    }
                    i = i + 1;
                }
                0
            },
        }
    }

    /// The text of the global attribute named `name`; none if absent or not text.
    pub fn get_attribute(&self, name: String) -> (r: Option<String>)
        ensures
            r is Some <==> text_of_named(attrs_of(self.header()), name@) is Some,
            r is Some ==> r->Some_0@ == text_of_named(attrs_of(self.header()), name@)->Some_0,
    {
        match &self.header.attrs {
            None => None,
            Some(attrs) => {
                let mut i: usize = 0;
                assert(attrs@.subrange(0, attrs@.len() as int) =~= attrs@);
                while i < attrs.len()
                    invariant
                        0 <= i <= attrs@.len(),
                        attrs@ == attrs_of(self.header()),
                        text_of_named(attrs@, name@) == text_of_named(
                            attrs@.subrange(i as int, attrs@.len() as int),
                            name@,
                        ),
                    decreases attrs@.len() - i,
                {
                    let ghost rest = attrs@.subrange(i as int, attrs@.len() as int);
                    assert(rest.drop_first() =~= attrs@.subrange(i + 1, attrs@.len() as int));
                    if attrs[i].name == name {
                        return match &attrs[i].value {
                            AttrValue::Text(t) => Some(t.clone()),
                            AttrValue::Numeric => None,
                        };
                    }
                    i = i + 1;
                }
                None
            },
        }
    }

    /// The virtual file the handle reads from.
    pub fn file(&self) -> (r: &WasmFile)
        ensures
            *r == self.vfile(),
    {
        &self.file
    }
}

} // verus!
