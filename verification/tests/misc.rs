use compute_runtime::as_slice::{
    count_type, get_attr, has_repr_c, plan_slice, Attribute, Field, FieldType, LayoutError,
    StructInput,
};
use compute_runtime::error::ErrorKind;
use compute_runtime::event::{CommandKind, EventGraph, Work};
use compute_runtime::objects::{ObjectEntry, ObjectKind, ObjectTable};

fn all_errors() -> Vec<(ErrorKind, i32)> {
    vec![
        (ErrorKind::MemObjectAllocationFailure, -4),
        (ErrorKind::OutOfResources, -5),
        (ErrorKind::OutOfHostMemory, -6),
        (ErrorKind::ExecStatusErrorForEventsInWaitList, -14),
        (ErrorKind::InvalidValue, -30),
        (ErrorKind::InvalidDevice, -33),
        (ErrorKind::InvalidContext, -34),
        (ErrorKind::InvalidQueueProperties, -35),
        (ErrorKind::InvalidCommandQueue, -36),
        (ErrorKind::InvalidMemObject, -38),
        (ErrorKind::InvalidSampler, -41),
        (ErrorKind::InvalidProgram, -44),
        (ErrorKind::InvalidProgramExecutable, -45),
        (ErrorKind::InvalidKernelName, -46),
        (ErrorKind::InvalidKernelDefinition, -47),
        (ErrorKind::InvalidKernel, -48),
        (ErrorKind::InvalidArgIndex, -49),
        (ErrorKind::InvalidArgValue, -50),
        (ErrorKind::InvalidArgSize, -51),
        (ErrorKind::InvalidKernelArgs, -52),
        (ErrorKind::InvalidWorkDimension, -53),
        (ErrorKind::InvalidWorkGroupSize, -54),
        (ErrorKind::InvalidWorkItemSize, -55),
        (ErrorKind::InvalidGlobalOffset, -56),
        (ErrorKind::InvalidEventWaitList, -57),
        (ErrorKind::InvalidEvent, -58),
        (ErrorKind::InvalidOperation, -59),
        (ErrorKind::InvalidGlobalWorkSize, -63),
        (ErrorKind::InvalidProperty, -64),
    ]
}

#[test]
fn error_codes() {
    for (e, code) in all_errors() {
        assert_eq!(e.code(), code);
        assert_eq!(ErrorKind::from_code(code), Some(e));
    }
    assert_eq!(ErrorKind::from_code(0), None);
    assert_eq!(ErrorKind::from_code(-1), None);
    assert_eq!(ErrorKind::from_code(-65), None);
    assert_eq!(ErrorKind::from_code(5), None);
}

fn s(text: &str) -> String {
    String::from(text)
}

fn src() -> FieldType {
    FieldType::Path { ident: Some(s("Src")) }
}

fn array(elem: FieldType, len: usize) -> FieldType {
    FieldType::Array { elem: Box::new(elem), len: Some(len) }
}

fn attr(name: &str, tokens: &str) -> Attribute {
    Attribute { list_name: Some(s(name)), tokens: s(tokens) }
}

fn field(name: &str, ty: FieldType, attrs: Vec<Attribute>) -> Field {
    Field { name: s(name), ty, attrs }
}

fn repr_c(fields: Vec<Field>) -> StructInput {
    StructInput { attrs: vec![attr("derive", "Clone"), attr("repr", "C")], fields: Some(fields) }
}

#[test]
fn elements_are_counted_through_arrays() {
    let name = s("Src");
    assert_eq!(count_type(&src(), &name), Ok(1));
    assert_eq!(count_type(&FieldType::Path { ident: Some(s("Dst")) }, &name), Ok(0));
    assert_eq!(count_type(&FieldType::Path { ident: None }, &name), Ok(0));
    assert_eq!(count_type(&FieldType::Other, &name), Ok(0));
    assert_eq!(count_type(&array(src(), 3), &name), Ok(3));
    assert_eq!(count_type(&array(array(src(), 3), 4), &name), Ok(12));
    assert_eq!(count_type(&array(src(), 0), &name), Ok(0));
    assert_eq!(count_type(&array(FieldType::Other, 5), &name), Ok(0));
    let unknown = FieldType::Array { elem: Box::new(src()), len: None };
    assert_eq!(count_type(&unknown, &name), Err(LayoutError::ArrayLengthNotLiteral));
    // The length of an array of something else is never looked at.
    let other = FieldType::Array { elem: Box::new(FieldType::Other), len: None };
    assert_eq!(count_type(&other, &name), Ok(0));
    assert_eq!(
        count_type(&array(array(src(), usize::MAX), 2), &name),
        Err(LayoutError::TooManyElements)
    );
    assert_eq!(count_type(&array(array(array(src(), usize::MAX), 2), 0), &name), Ok(0));
}

#[test]
fn attributes_are_found_by_name() {
    let f = field(
        "a",
        src(),
        vec![
            Attribute { list_name: None, tokens: s("x") },
            attr("other", "A"),
            attr("src_type", "ALU"),
            attr("src_type", "GPR"),
        ],
    );
    assert_eq!(get_attr(&f, &s("src_type")), Some(s("ALU")));
    assert_eq!(get_attr(&f, &s("dst_type")), None);
    assert!(has_repr_c(&vec![attr("repr", "C")]));
    assert!(!has_repr_c(&vec![attr("repr", "u8")]));
    assert!(!has_repr_c(&vec![attr("derive", "C")]));
    assert!(!has_repr_c(&vec![Attribute { list_name: None, tokens: s("C") }]));
    assert!(!has_repr_c(&Vec::new()));
}

#[test]
fn consecutive_fields_make_a_slice() {
    let input = repr_c(vec![
        field("dst", FieldType::Other, Vec::new()),
        field("a", src(), vec![attr("src_type", "ALU")]),
        field("bc", array(src(), 2), Vec::new()),
        field("d", src(), vec![attr("src_type", "GPR")]),
        field("flags", FieldType::Other, Vec::new()),
        field("more", FieldType::Path { ident: Some(s("u32")) }, Vec::new()),
    ]);
    let plan = plan_slice(&input, &s("Src"), &s("src_type")).unwrap();
    assert_eq!(plan.first, Some(1));
    assert_eq!(plan.count, 4);
    assert_eq!(plan.attrs, vec![Some(s("ALU")), None, None, Some(s("GPR"))]);
}

#[test]
fn struct_without_elements_has_an_empty_slice() {
    let input = repr_c(vec![field("x", FieldType::Other, Vec::new())]);
    let plan = plan_slice(&input, &s("Src"), &s("src_type")).unwrap();
    assert_eq!(plan.first, None);
    assert_eq!(plan.count, 0);
    assert!(plan.attrs.is_empty());
    let plan = plan_slice(&repr_c(Vec::new()), &s("Src"), &s("src_type")).unwrap();
    assert_eq!((plan.first, plan.count), (None, 0));
}

#[test]
fn layout_errors() {
    let name = s("Src");
    let attr_name = s("src_type");
    let plain = StructInput { attrs: Vec::new(), fields: Some(vec![field("a", src(), Vec::new())]) };
    assert_eq!(plan_slice(&plain, &name, &attr_name).err(), Some(LayoutError::NotReprC));
    let tuple = StructInput { attrs: vec![attr("repr", "C")], fields: None };
    assert_eq!(plan_slice(&tuple, &name, &attr_name).err(), Some(LayoutError::FieldsNotNamed));
    // The representation is looked at before the fields.
    let neither = StructInput { attrs: Vec::new(), fields: None };
    assert_eq!(plan_slice(&neither, &name, &attr_name).err(), Some(LayoutError::NotReprC));
    let apart = repr_c(vec![
        field("a", src(), Vec::new()),
        field("x", FieldType::Other, Vec::new()),
        field("b", src(), Vec::new()),
    ]);
    assert_eq!(plan_slice(&apart, &name, &attr_name).err(), Some(LayoutError::NotConsecutive));
    let stray = repr_c(vec![
        field("a", src(), Vec::new()),
        field("x", FieldType::Other, vec![attr("src_type", "ALU")]),
    ]);
    assert_eq!(
        plan_slice(&stray, &name, &attr_name).err(),
        Some(LayoutError::AttributeOnOtherField)
    );
    let unknown = repr_c(vec![field(
        "a",
        FieldType::Array { elem: Box::new(src()), len: None },
        Vec::new(),
    )]);
    assert_eq!(
        plan_slice(&unknown, &name, &attr_name).err(),
        Some(LayoutError::ArrayLengthNotLiteral)
    );
    let many = repr_c(vec![
        field("a", array(src(), usize::MAX), Vec::new()),
        field("b", src(), Vec::new()),
    ]);
    // The first field alone would need more attributes than memory holds,
    // so the count is checked on a struct that stops short of building them.
    assert_eq!(
        count_type(&many.fields.as_ref().unwrap()[0].ty, &name),
        Ok(usize::MAX)
    );
    // The first thing found wrong decides.
    let both = repr_c(vec![
        field("x", FieldType::Other, vec![attr("src_type", "ALU")]),
        field("a", FieldType::Array { elem: Box::new(src()), len: None }, Vec::new()),
    ]);
    assert_eq!(
        plan_slice(&both, &name, &attr_name).err(),
        Some(LayoutError::AttributeOnOtherField)
    );
}

#[test]
fn saturated_counts_are_refused() {
    let mut t = ObjectTable {
        entries: vec![Some(ObjectEntry { kind: ObjectKind::Buffer, refs: usize::MAX })],
    };
    assert_eq!(t.retain(1, ObjectKind::Buffer), Err(ErrorKind::OutOfHostMemory));
    assert_eq!(t.refcnt(1, ObjectKind::Buffer), Ok(usize::MAX));
    let mut g = EventGraph::new();
    let a = g.add(CommandKind::User, 1, None, Vec::new(), Work::Trivial, true);
    g.events[a].client_refs = usize::MAX;
    assert_eq!(g.retain(a), Err(ErrorKind::OutOfHostMemory));
    assert_eq!(g.events[a].client_refs, usize::MAX);
}
