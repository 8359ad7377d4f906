//! The platform classes known to the compiler, by internal name.
use vstd::prelude::*;
use vstd::string::*;
use crate::text::{chars_of, find_last, last_index_of, lemma_last_index_of, str_eq, string_of, subrange_of};

verus! {

/// Internal names of the platform classes, in catalog order.
pub open spec fn platform_classes() -> Seq<Seq<char>> {
    seq![
        "java/io/BufferedInputStream"@,
        "java/io/BufferedOutputStream"@,
        "java/io/BufferedReader"@,
        "java/io/BufferedWriter"@,
        "java/io/Closeable"@,
        "java/io/EOFException"@,
        "java/io/File"@,
        "java/io/FileInputStream"@,
        "java/io/FileNotFoundException"@,
        "java/io/FileOutputStream"@,
        "java/io/FileReader"@,
        "java/io/FileWriter"@,
        "java/io/IOException"@,
        "java/io/InputStream"@,
        "java/io/InputStreamReader"@,
        "java/io/OutputStream"@,
        "java/io/OutputStreamWriter"@,
        "java/io/PrintStream"@,
        "java/io/PrintWriter"@,
        "java/io/Reader"@,
        "java/io/Serializable"@,
        "java/io/Writer"@,
        "java/lang/Appendable"@,
        "java/lang/AutoCloseable"@,
        "java/lang/Boolean"@,
        "java/lang/Byte"@,
        "java/lang/Character"@,
        "java/lang/CharSequence"@,
        "java/lang/Class"@,
        "java/lang/ClassLoader"@,
        "java/lang/Comparable"@,
        "java/lang/Double"@,
        "java/lang/Enum"@,
        "java/lang/Exception"@,
        "java/lang/Float"@,
        "java/lang/IllegalArgumentException"@,
        "java/lang/IllegalStateException"@,
        "java/lang/IndexOutOfBoundsException"@,
        "java/lang/Integer"@,
        "java/lang/Iterable"@,
        "java/lang/Long"@,
        "java/lang/Math"@,
        "java/lang/Number"@,
        "java/lang/Object"@,
        "java/lang/Runtime"@,
        "java/lang/RuntimeException"@,
        "java/lang/Short"@,
        "java/lang/String"@,
        "java/lang/StringBuffer"@,
        "java/lang/StringBuilder"@,
        "java/lang/System"@,
        "java/lang/Thread"@,
        "java/lang/Throwable"@,
        "java/lang/Void"@,
        "java/math/BigDecimal"@,
        "java/math/BigInteger"@,
        "java/net/InetAddress"@,
        "java/net/URI"@,
        "java/net/URL"@,
        "java/nio/file/FileSystems"@,
        "java/nio/file/Files"@,
        "java/nio/file/Path"@,
        "java/nio/file/Paths"@,
        "java/time/Duration"@,
        "java/time/Instant"@,
        "java/time/LocalDate"@,
        "java/time/LocalDateTime"@,
        "java/time/LocalTime"@,
        "java/time/Period"@,
        "java/time/ZoneId"@,
        "java/time/ZonedDateTime"@,
        "java/util/ArrayDeque"@,
        "java/util/ArrayList"@,
        "java/util/Arrays"@,
        "java/util/Collection"@,
        "java/util/Collections"@,
        "java/util/Comparator"@,
        "java/util/Date"@,
        "java/util/Deque"@,
        "java/util/HashMap"@,
        "java/util/HashSet"@,
        "java/util/Iterator"@,
        "java/util/LinkedHashMap"@,
        "java/util/LinkedHashSet"@,
        "java/util/LinkedList"@,
        "java/util/List"@,
        "java/util/Locale"@,
        "java/util/Map"@,
        "java/util/Objects"@,
        "java/util/Optional"@,
        "java/util/OptionalDouble"@,
        "java/util/OptionalInt"@,
        "java/util/OptionalLong"@,
        "java/util/PriorityQueue"@,
        "java/util/Queue"@,
        "java/util/Random"@,
        "java/util/Scanner"@,
        "java/util/Set"@,
        "java/util/StringJoiner"@,
        "java/util/TreeMap"@,
        "java/util/TreeSet"@,
        "java/util/UUID"@,
        "java/util/Vector"@,
        "java/util/function/BiConsumer"@,
        "java/util/function/BiFunction"@,
        "java/util/function/BinaryOperator"@,
        "java/util/function/Consumer"@,
        "java/util/function/Function"@,
        "java/util/function/Predicate"@,
        "java/util/function/Supplier"@,
        "java/util/function/UnaryOperator"@
    ]
}

/// Internal names of the platform classes that are interfaces.
pub open spec fn platform_interfaces() -> Seq<Seq<char>> {
    seq![
        "java/io/Closeable"@,
        "java/io/Serializable"@,
        "java/lang/Appendable"@,
        "java/lang/AutoCloseable"@,
        "java/lang/CharSequence"@,
        "java/lang/Comparable"@,
        "java/lang/Iterable"@,
        "java/nio/file/Path"@,
        "java/util/Collection"@,
        "java/util/Comparator"@,
        "java/util/Deque"@,
        "java/util/Iterator"@,
        "java/util/List"@,
        "java/util/Map"@,
        "java/util/Queue"@,
        "java/util/Set"@,
        "java/util/function/BiConsumer"@,
        "java/util/function/BiFunction"@,
        "java/util/function/BinaryOperator"@,
        "java/util/function/Consumer"@,
        "java/util/function/Function"@,
        "java/util/function/Predicate"@,
        "java/util/function/Supplier"@,
        "java/util/function/UnaryOperator"@
    ]
}

/// Whether the platform class with this internal name is an interface.
pub fn is_platform_interface(internal_name: &str) -> (r: bool)
    ensures
        r == platform_interfaces().contains(internal_name@),
{
    let v: Vec<&'static str> = vec![
        "java/io/Closeable",
        "java/io/Serializable",
        "java/lang/Appendable",
        "java/lang/AutoCloseable",
        "java/lang/CharSequence",
        "java/lang/Comparable",
        "java/lang/Iterable",
        "java/nio/file/Path",
        "java/util/Collection",
        "java/util/Comparator",
        "java/util/Deque",
        "java/util/Iterator",
        "java/util/List",
        "java/util/Map",
        "java/util/Queue",
        "java/util/Set",
        "java/util/function/BiConsumer",
        "java/util/function/BiFunction",
        "java/util/function/BinaryOperator",
        "java/util/function/Consumer",
        "java/util/function/Function",
        "java/util/function/Predicate",
        "java/util/function/Supplier",
        "java/util/function/UnaryOperator"
    ];
    assert(v@.map_values(|s: &str| s@) =~= platform_interfaces());
    let mut i: usize = 0;
    while i < v.len()
        invariant
            v@.map_values(|s: &str| s@) == platform_interfaces(),
            i <= v@.len(),
            forall|j: int| 0 <= j < i ==> platform_interfaces()[j] != internal_name@,
        decreases v@.len() - i,
    {
        assert(platform_interfaces()[i as int] == v[i as int]@);
        if str_eq(v[i], internal_name) {
            return true;
        }
        i = i + 1;
    }
    false
}

/// The platform class list.
pub fn classes() -> (r: Vec<&'static str>)
    ensures
        r@.map_values(|s: &str| s@) == platform_classes(),
{
    let v: Vec<&'static str> = vec![
        "java/io/BufferedInputStream",
        "java/io/BufferedOutputStream",
        "java/io/BufferedReader",
        "java/io/BufferedWriter",
        "java/io/Closeable",
        "java/io/EOFException",
        "java/io/File",
        "java/io/FileInputStream",
        "java/io/FileNotFoundException",
        "java/io/FileOutputStream",
        "java/io/FileReader",
        "java/io/FileWriter",
        "java/io/IOException",
        "java/io/InputStream",
        "java/io/InputStreamReader",
        "java/io/OutputStream",
        "java/io/OutputStreamWriter",
        "java/io/PrintStream",
        "java/io/PrintWriter",
        "java/io/Reader",
        "java/io/Serializable",
        "java/io/Writer",
        "java/lang/Appendable",
        "java/lang/AutoCloseable",
        "java/lang/Boolean",
        "java/lang/Byte",
        "java/lang/Character",
        "java/lang/CharSequence",
        "java/lang/Class",
        "java/lang/ClassLoader",
        "java/lang/Comparable",
        "java/lang/Double",
        "java/lang/Enum",
        "java/lang/Exception",
        "java/lang/Float",
        "java/lang/IllegalArgumentException",
        "java/lang/IllegalStateException",
        "java/lang/IndexOutOfBoundsException",
        "java/lang/Integer",
        "java/lang/Iterable",
        "java/lang/Long",
        "java/lang/Math",
        "java/lang/Number",
        "java/lang/Object",
        "java/lang/Runtime",
        "java/lang/RuntimeException",
        "java/lang/Short",
        "java/lang/String",
        "java/lang/StringBuffer",
        "java/lang/StringBuilder",
        "java/lang/System",
        "java/lang/Thread",
        "java/lang/Throwable",
        "java/lang/Void",
        "java/math/BigDecimal",
        "java/math/BigInteger",
        "java/net/InetAddress",
        "java/net/URI",
        "java/net/URL",
        "java/nio/file/FileSystems",
        "java/nio/file/Files",
        "java/nio/file/Path",
        "java/nio/file/Paths",
        "java/time/Duration",
        "java/time/Instant",
        "java/time/LocalDate",
        "java/time/LocalDateTime",
        "java/time/LocalTime",
        "java/time/Period",
        "java/time/ZoneId",
        "java/time/ZonedDateTime",
        "java/util/ArrayDeque",
        "java/util/ArrayList",
        "java/util/Arrays",
        "java/util/Collection",
        "java/util/Collections",
        "java/util/Comparator",
        "java/util/Date",
        "java/util/Deque",
        "java/util/HashMap",
        "java/util/HashSet",
        "java/util/Iterator",
        "java/util/LinkedHashMap",
        "java/util/LinkedHashSet",
        "java/util/LinkedList",
        "java/util/List",
        "java/util/Locale",
        "java/util/Map",
        "java/util/Objects",
        "java/util/Optional",
        "java/util/OptionalDouble",
        "java/util/OptionalInt",
        "java/util/OptionalLong",
        "java/util/PriorityQueue",
        "java/util/Queue",
        "java/util/Random",
        "java/util/Scanner",
        "java/util/Set",
        "java/util/StringJoiner",
        "java/util/TreeMap",
        "java/util/TreeSet",
        "java/util/UUID",
        "java/util/Vector",
        "java/util/function/BiConsumer",
        "java/util/function/BiFunction",
        "java/util/function/BinaryOperator",
        "java/util/function/Consumer",
        "java/util/function/Function",
        "java/util/function/Predicate",
        "java/util/function/Supplier",
        "java/util/function/UnaryOperator"
    ];
    assert(v@.map_values(|s: &str| s@) =~= platform_classes());
    v
}

/// The part of an internal name after its last `/` (all of it when there is none).
pub open spec fn simple_name(name: Seq<char>) -> Seq<char> {
    match last_index_of(name, '/') {
        Some(i) => name.subrange(i + 1, name.len() as int),
        None => name,
    }
}

/// The part of an internal name before its last `/` (empty when there is none).
pub open spec fn package_name_of(name: Seq<char>) -> Seq<char> {
    match last_index_of(name, '/') {
        Some(i) => name.subrange(0, i),
        None => Seq::empty(),
    }
}

pub fn simple_name_of(internal_name: &str) -> (r: String)
    ensures
        r@ == simple_name(internal_name@),
{
    let cs = chars_of(internal_name);
    proof {
        lemma_last_index_of(cs@, '/');
    }
    match find_last(&cs, '/') {
        Some(i) => string_of(subrange_of(&cs, i + 1, cs.len()).as_slice()),
        None => string_of(cs.as_slice()),
    }
}

pub fn package_of(internal_name: &str) -> (r: String)
    ensures
        r@ == package_name_of(internal_name@),
{
    let cs = chars_of(internal_name);
    proof {
        lemma_last_index_of(cs@, '/');
    }
    match find_last(&cs, '/') {
        Some(i) => string_of(subrange_of(&cs, 0, i).as_slice()),
        None => String::new(),
    }
}

/// The first platform class whose simple name is `simple_name`.
pub fn class_name(simple: &str) -> (r: Option<&'static str>)
    ensures
        r matches Some(c) ==> exists|i: int|
            0 <= i < platform_classes().len() && platform_classes()[i] == c@ && simple_name(
                platform_classes()[i],
            ) == simple@ && forall|j: int|
                0 <= j < i ==> simple_name(#[trigger] platform_classes()[j]) != simple@,
        r is None ==> forall|j: int|
            0 <= j < platform_classes().len() ==> simple_name(#[trigger] platform_classes()[j])
                != simple@,
{
    let cs = classes();
    let mut i: usize = 0;
    while i < cs.len()
        invariant
            cs@.map_values(|s: &str| s@) == platform_classes(),
            i <= cs@.len(),
            forall|j: int| 0 <= j < i ==> simple_name(#[trigger] platform_classes()[j]) != simple@,
        decreases cs@.len() - i,
    {
        let name = cs[i];
        assert(platform_classes()[i as int] == name@);
        let s = simple_name_of(name);
        if str_eq(s.as_str(), simple) {
            return Some(name);
        }
        i = i + 1;
    }
    None
}

/// The platform class with exactly this internal name.
pub fn internal_class_name(internal_name: &str) -> (r: Option<&'static str>)
    ensures
        r matches Some(c) ==> c@ == internal_name@ && platform_classes().contains(c@),
        r is None ==> !platform_classes().contains(internal_name@),
{
    let cs = classes();
    let mut i: usize = 0;
    while i < cs.len()
        invariant
            cs@.map_values(|s: &str| s@) == platform_classes(),
            i <= cs@.len(),
            forall|j: int| 0 <= j < i ==> platform_classes()[j] != internal_name@,
        decreases cs@.len() - i,
    {
        let name = cs[i];
        assert(platform_classes()[i as int] == name@);
        if str_eq(name, internal_name) {
            return Some(name);
        }
        i = i + 1;
    }
    None
}

/// Whether some platform class lies in the package.
pub fn package_name(package: &str) -> (r: bool)
    ensures
        r == exists|j: int|
            0 <= j < platform_classes().len() && package_name_of(#[trigger] platform_classes()[j])
                == package@,
{
    let cs = classes();
    let mut i: usize = 0;
    while i < cs.len()
        invariant
            cs@.map_values(|s: &str| s@) == platform_classes(),
            i <= cs@.len(),
            forall|j: int|
                0 <= j < i ==> package_name_of(#[trigger] platform_classes()[j]) != package@,
        decreases cs@.len() - i,
    {
        let name = cs[i];
        assert(platform_classes()[i as int] == name@);
        let p = package_of(name);
        if str_eq(p.as_str(), package) {
            return true;
        }
        i = i + 1;
    }
    false
}

} // verus!
