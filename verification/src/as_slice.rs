//! Laying out the fields of a struct that can be viewed as one slice.
//!
//! A struct whose fields of one element type stand side by side, alone or
//! in arrays, can hand them out as a single slice. This module decides
//! whether a struct allows that, how many elements the slice has, where it
//! starts, and which attribute goes with each element.

use vstd::prelude::*;

verus! {

/// The type of a field, as far as counting elements needs it.
#[derive(Debug)]
pub enum FieldType {
    /// An array; `len` is its length where that is written as a plain
    /// integer literal that fits the machine word.
    Array { elem: Box<FieldType>, len: Option<usize> },
    /// A path; `ident` is its name where it is a single plain identifier
    /// and no qualified self type stands before it.
    Path { ident: Option<String> },
    /// Anything else.
    Other,
}

/// An attribute on a field or a struct.
#[derive(Debug)]
pub struct Attribute {
    /// The attribute's name, where it has the form `name(...)` with a
    /// single plain identifier as name.
    pub list_name: Option<String>,
    /// What stands between the parentheses, as text.
    pub tokens: String,
}

/// A named field of a struct.
#[derive(Debug)]
pub struct Field {
    pub name: String,
    pub ty: FieldType,
    pub attrs: Vec<Attribute>,
}

/// A struct as it is handed to the layout.
#[derive(Debug)]
pub struct StructInput {
    pub attrs: Vec<Attribute>,
    /// The fields, where they are named.
    pub fields: Option<Vec<Field>>,
}

/// Why a struct cannot be viewed as a slice.
#[derive(Clone, Copy, Debug, PartialEq, Eq, Structural)]
pub enum LayoutError {
    /// The struct is not declared with the C representation.
    NotReprC,
    /// The fields of the struct have no names.
    FieldsNotNamed,
    /// An array of elements has a length that is no plain integer literal.
    ArrayLengthNotLiteral,
    /// There are more elements than a slice can have.
    TooManyElements,
    /// A field of elements stands apart from the others.
    NotConsecutive,
    /// The attribute stands on a field that holds no elements.
    AttributeOnOtherField,
}

/// How a struct is viewed as a slice.
#[derive(Debug)]
pub struct SlicePlan {
    /// The position of the field the slice starts at; `None` where the
    /// struct holds no elements and the slice is empty.
    pub first: Option<usize>,
    /// The number of elements.
    pub count: usize,
    /// For each element the text of its field's attribute, `None` where
    /// the field has none and the default applies.
    pub attrs: Vec<Option<String>>,
}

/// The number of elements named `slice_type` that a type holds, or why it
/// cannot be told: an array of elements needs a literal length.
pub open spec fn type_count(ty: FieldType, slice_type: Seq<char>) -> Result<int, LayoutError>
    decreases ty,
{
    match ty {
        FieldType::Array { elem, len } => match type_count(*elem, slice_type) {
            Err(e) => Err(e),
            Ok(elems) => if elems > 0 {
                match len {
                    Some(n) => Ok(elems * n),
                    None => Err(LayoutError::ArrayLengthNotLiteral),
                }
            } else {
                Ok(0)
            },
        },
        FieldType::Path { ident } => if ident matches Some(name) && name@ == slice_type {
            Ok(1)
        } else {
            Ok(0)
        },
        FieldType::Other => Ok(0),
    }
}

/// The number of elements a type holds, where it fits the machine word.
pub open spec fn spec_count_type(ty: FieldType, slice_type: Seq<char>) -> Result<usize, LayoutError> {
    match type_count(ty, slice_type) {
        Err(e) => Err(e),
        Ok(n) => if n > usize::MAX {
            Err(LayoutError::TooManyElements)
        } else {
            Ok(n as usize)
        },
    }
}

/// A count is never negative, and counting fails for one reason only.
pub proof fn lemma_type_count_nonnegative(ty: FieldType, slice_type: Seq<char>)
    ensures
        type_count(ty, slice_type) matches Ok(n) ==> n >= 0,
        type_count(ty, slice_type) matches Err(e) ==> e == LayoutError::ArrayLengthNotLiteral,
    decreases ty,
{
    match ty {
        FieldType::Array { elem, len } => {
            lemma_type_count_nonnegative(*elem, slice_type);
            if let Ok(elems) = type_count(*elem, slice_type) {
                if let Some(n) = len {
                    assert(elems * n >= 0) by (nonlinear_arith)
                        requires
                            elems >= 0,
                            n >= 0,
                    ;
                }
            }
        },
        _ => {},
    }
}

/// Counts the elements named `slice_type` that a type holds.
pub fn count_type(ty: &FieldType, slice_type: &String) -> (r: Result<usize, LayoutError>)
    ensures
        r == spec_count_type(*ty, slice_type@),
    decreases ty,
{
    match ty {
        FieldType::Array { elem, len } => {
            proof {
                lemma_type_count_nonnegative(**elem, slice_type@);
            }
            let elems = match count_type(elem, slice_type) {
                Ok(n) => n,
                Err(LayoutError::TooManyElements) => {
                    proof {
                        let inner = type_count(**elem, slice_type@)->Ok_0;
                        if let Some(n) = *len {
                            assert(inner * n > usize::MAX || n == 0) by (nonlinear_arith)
                                requires
                                    inner > usize::MAX,
                                    n >= 0,
                            ;
                            assert(n == 0 ==> inner * n == 0) by (nonlinear_arith);
                        }
                    }
                    return match len {
                        Some(n) => if *n == 0 {
                            Ok(0)
                        } else {
                            Err(LayoutError::TooManyElements)
                        },
                        None => Err(LayoutError::ArrayLengthNotLiteral),
                    };
                },
                Err(e) => {
                    return Err(e);
                },
            };
            if elems > 0 {
                match len {
                    Some(n) => match elems.checked_mul(*n) {
                        Some(total) => Ok(total),
                        None => Err(LayoutError::TooManyElements),
                    },
                    None => Err(LayoutError::ArrayLengthNotLiteral),
                }
            } else {
                Ok(0)
            }
        },
        FieldType::Path { ident } => match ident {
            Some(name) => if *name == *slice_type {
                Ok(1)
            } else {
                Ok(0)
            },
            None => Ok(0),
        },
        FieldType::Other => Ok(0),
    }
}

/// The position of the first attribute named `name` at or after `from`,
/// or the number of attributes.
pub open spec fn attr_index(attrs: Seq<Attribute>, name: Seq<char>, from: int) -> int
    decreases attrs.len() - from,
{
    if from < 0 || from >= attrs.len() {
        attrs.len() as int
    } else if attrs[from].list_name matches Some(n) && n@ == name {
        from
    } else {
        attr_index(attrs, name, from + 1)
    }
}

/// What the first attribute named `name` holds, if there is such an attribute.
pub open spec fn spec_get_attr(attrs: Seq<Attribute>, name: Seq<char>) -> Option<Seq<char>> {
    let i = attr_index(attrs, name, 0);
    if i < attrs.len() {
        Some(attrs[i].tokens@)
    } else {
        None
    }
}

/// Finds what the first attribute named `attr_name` on a field holds.
pub fn get_attr(field: &Field, attr_name: &String) -> (r: Option<String>)
    ensures
        match r {
            Some(s) => spec_get_attr(field.attrs@, attr_name@) == Some(s@),
            None => spec_get_attr(field.attrs@, attr_name@) is None,
        },
{
    let mut i: usize = 0;
    while i < field.attrs.len()
        invariant
            i <= field.attrs@.len(),
            attr_index(field.attrs@, attr_name@, 0) == attr_index(field.attrs@, attr_name@, i as int),
        decreases field.attrs@.len() - i,
    {
        if let Some(n) = &field.attrs[i].list_name {
            if *n == *attr_name {
                return Some(field.attrs[i].tokens.clone());
            }
        }
        i += 1;
    }
    None
}

/// Some attribute declares the C representation.
pub open spec fn spec_has_repr_c(attrs: Seq<Attribute>) -> bool {
    exists|i: int|
        0 <= i < attrs.len() && ((#[trigger] attrs[i]).list_name matches Some(n) && n@ == "repr"@
            && attrs[i].tokens@ == "C"@)
}

/// Tests [`spec_has_repr_c`].
pub fn has_repr_c(attrs: &Vec<Attribute>) -> (b: bool)
    ensures
        b == spec_has_repr_c(attrs@),
{
    let repr = "repr".to_owned();
    let c = "C".to_owned();
    let mut i: usize = 0;
    while i < attrs.len()
        invariant
            i <= attrs@.len(),
            repr@ == "repr"@,
            c@ == "C"@,
            forall|j: int|
                0 <= j < i ==> !((#[trigger] attrs@[j]).list_name matches Some(n) && n@ == "repr"@
                    && attrs@[j].tokens@ == "C"@),
        decreases attrs@.len() - i,
    {
        if let Some(n) = &attrs[i].list_name {
            if *n == repr && attrs[i].tokens == c {
                return true;
            }
        }
        i += 1;
    }
    false
}

/// What is known after looking at some of the fields.
pub struct Scan {
    /// The position of the first field of elements.
    pub first: Option<int>,
    /// The number of elements so far.
    pub count: int,
    /// A field without elements followed the fields of elements.
    pub found_last: bool,
    /// The attribute of each element so far.
    pub attrs: Seq<Option<Seq<char>>>,
}

/// `n` copies of `x`.
pub open spec fn repeated(x: Option<Seq<char>>, n: int) -> Seq<Option<Seq<char>>> {
    Seq::new(
        if n < 0 {
            0nat
        } else {
            n as nat
        },
        |i: int| x,
    )
}

/// What is known after looking at the first `n` fields, or the first thing
/// found wrong.
///
/// A field of elements must not follow a field without elements that
/// itself follows fields of elements, and the attribute may stand on
/// fields of elements only.
pub open spec fn scan(
    fields: Seq<Field>,
    slice_type: Seq<char>,
    attr_name: Seq<char>,
    n: int,
) -> Result<Scan, LayoutError>
    decreases n,
{
    if n <= 0 {
        Ok(Scan { first: None, count: 0, found_last: false, attrs: Seq::empty() })
    } else {
        match scan(fields, slice_type, attr_name, n - 1) {
            Err(e) => Err(e),
            Ok(s) => {
                let f = fields[n - 1];
                let attr = spec_get_attr(f.attrs@, attr_name);
                match spec_count_type(f.ty, slice_type) {
                    Err(e) => Err(e),
                    Ok(c) => if c > 0 {
                        if s.found_last {
                            Err(LayoutError::NotConsecutive)
                        } else if s.count + c > usize::MAX {
                            Err(LayoutError::TooManyElements)
                        } else {
                            Ok(
                                Scan {
                                    first: if s.first is None {
                                        Some(n - 1)
                                    } else {
                                        s.first
                                    },
                                    count: s.count + c,
                                    found_last: false,
                                    attrs: s.attrs + repeated(attr, c as int),
                                },
                            )
                        }
                    } else if attr is Some {
                        Err(LayoutError::AttributeOnOtherField)
                    } else {
                        Ok(Scan { found_last: s.first is Some, ..s })
                    },
                }
            },
        }
    }
}

/// How a struct is viewed as a slice, or why it cannot be.
pub open spec fn spec_plan(input: &StructInput, slice_type: Seq<char>, attr_name: Seq<char>) -> Result<
    Scan,
    LayoutError,
> {
    if !spec_has_repr_c(input.attrs@) {
        Err(LayoutError::NotReprC)
    } else {
        match input.fields {
            None => Err(LayoutError::FieldsNotNamed),
            Some(fields) => scan(fields@, slice_type, attr_name, fields@.len() as int),
        }
    }
}

/// Once something was found wrong, the fields after it change nothing.
pub proof fn lemma_scan_error_stays(
    fields: Seq<Field>,
    slice_type: Seq<char>,
    attr_name: Seq<char>,
    n: int,
    m: int,
)
    requires
        0 <= n <= m,
        scan(fields, slice_type, attr_name, n) is Err,
    ensures
        scan(fields, slice_type, attr_name, m) == scan(fields, slice_type, attr_name, n),
    decreases m - n,
{
    if n < m {
        lemma_scan_error_stays(fields, slice_type, attr_name, n, m - 1);
    }
}

/// In a struct that can be viewed as a slice, the fields of elements stand
/// side by side: between the first of them and any later one there is no
/// field without elements. The slice has one attribute per element.
pub proof fn lemma_scan_is_consecutive(
    fields: Seq<Field>,
    slice_type: Seq<char>,
    attr_name: Seq<char>,
    n: int,
)
    requires
        0 <= n <= fields.len(),
        scan(fields, slice_type, attr_name, n) is Ok,
    ensures
        ({
            let s = scan(fields, slice_type, attr_name, n)->Ok_0;
            &&& s.attrs.len() == s.count
            &&& s.count >= 0
            &&& s.first is None <==> s.count == 0
            &&& s.first is None ==> !s.found_last && forall|i: int|
                0 <= i < n ==> spec_count_type(#[trigger] fields[i].ty, slice_type) == Ok::<
                    usize,
                    LayoutError,
                >(0)
            &&& s.first matches Some(first) ==> {
                &&& 0 <= first < n
                &&& forall|i: int|
                    0 <= i < first ==> spec_count_type(#[trigger] fields[i].ty, slice_type) == Ok::<
                        usize,
                        LayoutError,
                    >(0)
                &&& spec_count_type(fields[first].ty, slice_type)->Ok_0 > 0
                &&& forall|i: int, j: int|
                    first <= i < j < n && spec_count_type(#[trigger] fields[j].ty, slice_type)->Ok_0
                        > 0 ==> spec_count_type(#[trigger] fields[i].ty, slice_type)->Ok_0 > 0
                &&& s.found_last <==> spec_count_type(fields[n - 1].ty, slice_type)->Ok_0 == 0
            }
        }),
    decreases n,
{
    if n > 0 {
        lemma_scan_is_consecutive(fields, slice_type, attr_name, n - 1);
        let prev = scan(fields, slice_type, attr_name, n - 1)->Ok_0;
        let s = scan(fields, slice_type, attr_name, n)->Ok_0;
        let c = spec_count_type(fields[n - 1].ty, slice_type)->Ok_0;
        if let Some(first) = s.first {
            assert forall|i: int, j: int|
                first <= i < j < n && spec_count_type(#[trigger] fields[j].ty, slice_type)->Ok_0
                    > 0 implies spec_count_type(#[trigger] fields[i].ty, slice_type)->Ok_0 > 0 by {
                if j == n - 1 && prev.first is Some {
                    assert(!prev.found_last);
                    if i == n - 2 {
                    } else {
                        assert(spec_count_type(fields[n - 2].ty, slice_type)->Ok_0 > 0);
                    }
                }
            }
        }
    }
}

/// Appends `n` copies of `attr`.
fn push_copies(attrs: &mut Vec<Option<String>>, attr: &Option<String>, n: usize)
    ensures
        views(final(attrs)@) == views(old(attrs)@) + repeated(view_of(*attr), n as int),
{
    let ghost before = views(attrs@);
    let mut i: usize = 0;
    while i < n
        invariant
            i <= n,
            views(attrs@) == before + repeated(view_of(*attr), i as int),
        decreases n - i,
    {
        let ghost prev = attrs@;
        let copy = match attr {
            Some(s) => Some(s.clone()),
            None => None,
        };
        attrs.push(copy);
        assert(views(attrs@) =~= before + repeated(view_of(*attr), i + 1)) by {
            assert(views(prev) == before + repeated(view_of(*attr), i as int));
            assert(views(attrs@) =~= views(prev).push(view_of(*attr)));
        }
        i += 1;
    }
}

/// The text of an optional string.
pub open spec fn view_of(attr: Option<String>) -> Option<Seq<char>> {
    match attr {
        Some(s) => Some(s@),
        None => None,
    }
}

/// The texts of a list of optional strings.
pub open spec fn views(attrs: Seq<Option<String>>) -> Seq<Option<Seq<char>>> {
    Seq::new(attrs.len(), |i: int| view_of(attrs[i]))
}

/// Decides how a struct is viewed as a slice of its elements of type
/// `slice_type`, with the attribute `attr_name` naming the kind of each element.
#[verifier::loop_isolation(false)]
pub fn plan_slice(input: &StructInput, slice_type: &String, attr_name: &String) -> (r: Result<
    SlicePlan,
    LayoutError,
>)
    ensures
        match r {
            Ok(plan) => {
                &&& spec_plan(input, slice_type@, attr_name@) matches Ok(s)
                &&& match plan.first {
                    Some(i) => s.first == Some(i as int),
                    None => s.first is None,
                }
                &&& plan.count == s.count
                &&& views(plan.attrs@) == s.attrs
            },
            Err(e) => spec_plan(input, slice_type@, attr_name@) == Err::<Scan, LayoutError>(e),
        },
{
    if !has_repr_c(&input.attrs) {
        return Err(LayoutError::NotReprC);
    }
    let fields = match &input.fields {
        Some(fields) => fields,
        None => {
            return Err(LayoutError::FieldsNotNamed);
        },
    };
    let mut first: Option<usize> = None;
    let mut count: usize = 0;
    let mut found_last = false;
    let mut attrs: Vec<Option<String>> = Vec::new();
    assert(views(attrs@) =~= Seq::<Option<Seq<char>>>::empty());
    let mut i: usize = 0;
    while i < fields.len()
        invariant
            i <= fields@.len(),
            scan(fields@, slice_type@, attr_name@, i as int) matches Ok(s) && {
                &&& match first {
                    Some(k) => s.first == Some(k as int),
                    None => s.first is None,
                }
                &&& count == s.count
                &&& found_last == s.found_last
                &&& views(attrs@) == s.attrs
            },
        decreases fields@.len() - i,
    {
        let f_count = match count_type(&fields[i].ty, slice_type) {
            Ok(c) => c,
            Err(e) => {
                proof {
                    lemma_scan_error_stays(
                        fields@,
                        slice_type@,
                        attr_name@,
                        i + 1,
                        fields@.len() as int,
                    );
                }
                return Err(e);
            },
        };
        let f_attr = get_attr(&fields[i], attr_name);
        if f_count > 0 {
            if found_last {
                proof {
                    lemma_scan_error_stays(
                        fields@,
                        slice_type@,
                        attr_name@,
                        i + 1,
                        fields@.len() as int,
                    );
                }
                return Err(LayoutError::NotConsecutive);
            }
            let total = match count.checked_add(f_count) {
                Some(t) => t,
                None => {
                    proof {
                        lemma_scan_error_stays(
                            fields@,
                            slice_type@,
                            attr_name@,
                            i + 1,
                            fields@.len() as int,
                        );
                    }
                    return Err(LayoutError::TooManyElements);
                },
            };
            if first.is_none() {
                first = Some(i);
            }
            push_copies(&mut attrs, &f_attr, f_count);
            count = total;
        } else {
            if f_attr.is_some() {
                proof {
                    lemma_scan_error_stays(
                        fields@,
                        slice_type@,
                        attr_name@,
                        i + 1,
                        fields@.len() as int,
                    );
                }
                return Err(LayoutError::AttributeOnOtherField);
            }
            if first.is_some() {
                found_last = true;
            }
        }
        i += 1;
    }
    Ok(SlicePlan { first, count, attrs })
}

} // verus!
