//! Code-generation errors, and the diagnostics the validator reports.
use vstd::prelude::*;
use crate::text::{concat_str, replace_char, replace_char_exec};
use crate::ty::{Ty, TyModel};

verus! {

/// An error found while generating bytecode.
#[derive(Debug)]
pub struct BytecodeError {
    pub code: &'static str,
    pub message: String,
    pub line: Option<u16>,
    pub needle: Option<String>,
    pub label: Option<String>,
    pub help: Option<String>,
}

impl From<String> for BytecodeError {
    fn from(value: String) -> (r: Self) {
        BytecodeError { code: "B0001", message: value, line: None, needle: None, label: None, help: None }
    }
}

impl vstd::std_specs::convert::FromSpecImpl<String> for BytecodeError {
    open spec fn obeys_from_spec() -> bool {
        true
    }

    open spec fn from_spec(v: String) -> Self {
        BytecodeError { code: "B0001", message: v, line: None, needle: None, label: None, help: None }
    }
}

impl BytecodeError {
    /// The error's text: its message.
    pub fn text(&self) -> (r: String)
        ensures
            r@ == self.message@,
    {
        self.message.clone()
    }

    /// An error with the generic code `B0001`.
    pub fn new(message: String) -> (r: Self)
        ensures
            r.code@ == "B0001"@,
            r.message@ == message@,
            r.line is None,
            r.needle is None,
            r.label is None,
            r.help is None,
    {
        BytecodeError { code: "B0001", message, line: None, needle: None, label: None, help: None }
    }

    /// An error with the generic code `B0001` at a source line.
    pub fn at_line(message: String, line: Option<u16>) -> (r: Self)
        ensures
            r.code@ == "B0001"@,
            r.message@ == message@,
            r.line == line,
            r.needle is None,
            r.label is None,
            r.help is None,
    {
        BytecodeError { code: "B0001", message, line, needle: None, label: None, help: None }
    }

    pub fn with_code(self, code: &'static str) -> (r: Self)
        ensures
            r.code == code,
            r.message == self.message,
            r.line == self.line,
            r.needle == self.needle,
            r.label == self.label,
            r.help == self.help,
    {
        BytecodeError { code, ..self }
    }

    /// The source text the error points at.
    pub fn with_needle(self, needle: String) -> (r: Self)
        ensures
            r.code == self.code,
            r.message == self.message,
            r.line == self.line,
            r.needle == Some(needle),
            r.label == self.label,
            r.help == self.help,
    {
        BytecodeError { needle: Some(needle), ..self }
    }

    pub fn with_label(self, label: String) -> (r: Self)
        ensures
            r.code == self.code,
            r.message == self.message,
            r.line == self.line,
            r.needle == self.needle,
            r.label == Some(label),
            r.help == self.help,
    {
        BytecodeError { label: Some(label), ..self }
    }

    pub fn with_help(self, help: String) -> (r: Self)
        ensures
            r.code == self.code,
            r.message == self.message,
            r.line == self.line,
            r.needle == self.needle,
            r.label == self.label,
            r.help == Some(help),
    {
        BytecodeError { help: Some(help), ..self }
    }
}

/// How a type is written in Java source: `int`, `java.lang.String`, `int[]`.
pub open spec fn java_name(t: TyModel) -> Seq<char>
    decreases t,
{
    match t {
        TyModel::Void => "void"@,
        TyModel::Boolean => "boolean"@,
        TyModel::Byte => "byte"@,
        TyModel::Char => "char"@,
        TyModel::Short => "short"@,
        TyModel::Int => "int"@,
        TyModel::Long => "long"@,
        TyModel::Float => "float"@,
        TyModel::Double => "double"@,
        TyModel::Class(n) => replace_char(n, '/', '.'),
        TyModel::Array(e) => java_name(*e) + "[]"@,
        TyModel::TypeVar(n) => n,
        TyModel::Wildcard(b) => match b {
            Some(b) => "? extends "@ + java_name(*b),
            None => "?"@,
        },
        TyModel::Intersection(a, b) => java_name(*a) + " & "@ + java_name(*b),
    }
}

impl Ty {
    /// The type as written in Java source.
    pub fn java_name(&self) -> (r: String)
        ensures
            r@ == java_name(self@),
        decreases self,
    {
        match self {
            Ty::Void => String::from_str("void"),
            Ty::Boolean => String::from_str("boolean"),
            Ty::Byte => String::from_str("byte"),
            Ty::Char => String::from_str("char"),
            Ty::Short => String::from_str("short"),
            Ty::Int => String::from_str("int"),
            Ty::Long => String::from_str("long"),
            Ty::Float => String::from_str("float"),
            Ty::Double => String::from_str("double"),
            Ty::Class(n) => replace_char_exec(n.as_str(), '/', '.'),
            Ty::Array(e) => {
                let inner = (**e).java_name();
                concat_str(inner.as_str(), "[]")
            },
            Ty::TypeVar(n) => n.clone(),
            Ty::Wildcard(b) => match b {
                Some(b) => {
                    let inner = (**b).java_name();
                    concat_str("? extends ", inner.as_str())
                },
                None => String::from_str("?"),
            },
            Ty::Intersection(a, b) => {
                let x = (**a).java_name();
                let y = (**b).java_name();
                let s = concat_str(x.as_str(), " & ");
                concat_str(s.as_str(), y.as_str())
            },
        }
    }
}

/// `a.b.C` for the internal name `a/b/C`.
pub fn display_internal_name(name: &str) -> (r: String)
    ensures
        r@ == replace_char(name@, '/', '.'),
{
    replace_char_exec(name, '/', '.')
}

/// Argument type names joined by `, `.
pub open spec fn joined_args(args: Seq<TyModel>) -> Seq<char>
    decreases args.len(),
{
    if args.len() == 0 {
        Seq::empty()
    } else if args.len() == 1 {
        java_name(args[0])
    } else {
        joined_args(args.drop_last()) + ", "@ + java_name(args.last())
    }
}

pub fn display_args(args: &[Ty]) -> (r: String)
    ensures
        r@ == joined_args(args@.map_values(|t: Ty| t@)),
{
    let mut s = String::new();
    let mut i: usize = 0;
    while i < args.len()
        invariant
            i <= args@.len(),
            s@ == joined_args(args@.subrange(0, i as int).map_values(|t: Ty| t@)),
        decreases args@.len() - i,
    {
        let name = args[i].java_name();
        if i > 0 {
            s.append(", ");
        }
        s.append(name.as_str());
        proof {
            let prev = args@.subrange(0, i as int).map_values(|t: Ty| t@);
            let next = args@.subrange(0, i + 1).map_values(|t: Ty| t@);
            assert(next.drop_last() =~= prev);
            assert(next.last() == args@[i as int]@);
            if i == 0 {
                assert(next.len() == 1);
                assert(s@ =~= joined_args(next));
            } else {
                assert(s@ =~= joined_args(next));
            }
        }
        i = i + 1;
    }
    assert(args@.subrange(0, i as int) =~= args@);
    s
}

/// `cannot find symbol: method m(A, B) in R` (code `B0103`).
pub fn unresolved_method(method: &str, arg_types: &[Ty], receiver: &str, line: Option<u16>) -> (r: BytecodeError)
    ensures
        r.message@ == "cannot find symbol: method "@ + method@ + "("@ + joined_args(
            arg_types@.map_values(|t: Ty| t@),
        ) + ") in "@ + receiver@,
        r.code@ == "B0103"@,
        r.line == line,
        r.needle matches Some(n) && n@ == method@,
        r.label matches Some(l) && l@ == "unresolved method call"@,
        r.help matches Some(h) && h@ == "check the method name and argument types"@,
{
    let mut m = String::from_str("cannot find symbol: method ");
    m.append(method);
    m.append("(");
    let args = display_args(arg_types);
    m.append(args.as_str());
    m.append(") in ");
    m.append(receiver);
    BytecodeError::at_line(m, line).with_code("B0103").with_needle(String::from_str(method)).with_label(
        String::from_str("unresolved method call"),
    ).with_help(String::from_str("check the method name and argument types"))
}

/// `cannot find symbol: variable x` (code `B0101`).
pub fn unresolved_variable(name: &str, line: Option<u16>) -> (r: BytecodeError)
    ensures
        r.message@ == "cannot find symbol: variable "@ + name@,
        r.code@ == "B0101"@,
        r.line == line,
        r.needle matches Some(n) && n@ == name@,
        r.label matches Some(l) && l@ == "unresolved variable"@,
        r.help matches Some(h) && h@ == "declare the variable before using it"@,
{
    let m = concat_str("cannot find symbol: variable ", name);
    BytecodeError::at_line(m, line).with_code("B0101").with_needle(String::from_str(name)).with_label(
        String::from_str("unresolved variable"),
    ).with_help(String::from_str("declare the variable before using it"))
}

/// `cannot find symbol: variable f in R` (code `B0102`).
pub fn unresolved_field(field: &str, receiver: &str, line: Option<u16>) -> (r: BytecodeError)
    ensures
        r.message@ == "cannot find symbol: variable "@ + field@ + " in "@ + receiver@,
        r.code@ == "B0102"@,
        r.line == line,
        r.needle matches Some(n) && n@ == field@,
        r.label matches Some(l) && l@ == "unresolved field"@,
        r.help matches Some(h) && h@ == "check the field name or add a matching field"@,
{
    let mut m = concat_str("cannot find symbol: variable ", field);
    m.append(" in ");
    m.append(receiver);
    BytecodeError::at_line(m, line).with_code("B0102").with_needle(String::from_str(field)).with_label(
        String::from_str("unresolved field"),
    ).with_help(String::from_str("check the field name or add a matching field"))
}

/// `static method m cannot be called through this` (code `B0201`).
pub fn invalid_this_method_receiver(method: &str, line: Option<u16>) -> (r: BytecodeError)
    ensures
        r.message@ == "static method "@ + method@ + " cannot be called through this"@,
        r.code@ == "B0201"@,
        r.line == line,
        r.needle matches Some(n) && n@ == method@,
        r.label matches Some(l) && l@ == "invalid method receiver"@,
        r.help matches Some(h) && h@
            == "call the static method through the class name or remove the explicit receiver"@,
{
    let mut m = concat_str("static method ", method);
    m.append(" cannot be called through this");
    BytecodeError::at_line(m, line).with_code("B0201").with_needle(String::from_str(method)).with_label(
        String::from_str("invalid method receiver"),
    ).with_help(
        String::from_str(
            "call the static method through the class name or remove the explicit receiver",
        ),
    )
}

} // verus!
