//! The fixed C++ prologue and epilogue of a generated header, and the
//! struct declaration template.
//!
//! The generated text needs C++ inclusion directives; their keyword is
//! assembled from two halves throughout this module.

use vstd::prelude::*;
use vstd::string::StringExecFns;

verus! {

/// The text `#include <...>` for one header.
pub open spec fn include_line(h: Seq<char>) -> Seq<char> {
    "#inc"@ + "lude <"@ + h + ">\n"@
}

fn push_include_line(s: &mut String, h: &str)
    ensures
        final(s)@ == old(s)@ + include_line(h@),
{
    s.append("#inc");
    s.append("lude <");
    s.append(h);
    s.append(">\n");
    proof {
        assert(s@ =~= old(s)@ + include_line(h@));
    }
}

/// The error type and reader of the prologue.
pub open spec fn reader_text() -> Seq<char> {
    "class ParseError : public std::runtime_error {\npublic:\n    explicit ParseError(const std::string& message)\n        : std::runtime_error(message) {}\n};\n\n"@
        + "class Reader {\npublic:\n    explicit Reader(std::span<const uint8_t> data)\n        : data_(data), position_(0) {}\n\n"@
        + "    template<typename T>\n    T read_le() {\n        if (position_ + sizeof(T) > data_.size()) {\n            throw ParseError(\"Unexpected end of data\");\n        }\n        T value;\n        std::memcpy(&value, &data_[position_], sizeof(T));\n        position_ += sizeof(T);\n        return value;\n    }\n\n"@
        + "    template<typename T>\n    T read_be() {\n        if (position_ + sizeof(T) > data_.size()) {\n            throw ParseError(\"Unexpected end of data\");\n        }\n        T value = 0;\n        for (size_t i = 0; i < sizeof(T); ++i) {\n            value = (value << 8) | data_[position_ + i];\n        }\n        position_ += sizeof(T);\n        return value;\n    }\n\n"@
        + "    void skip(size_t bytes) {\n        if (position_ + bytes > data_.size()) {\n            throw ParseError(\"Unexpected end of data during skip\");\n        }\n        position_ += bytes;\n    }\n\n"@
        + "    size_t position() const { return position_; }\n    size_t remaining() const { return data_.size() - position_; }\n\nprivate:\n    std::span<const uint8_t> data_;\n    size_t position_;\n};\n\n"@
}

/// The writer of the prologue.
pub open spec fn writer_text() -> Seq<char> {
    "class Writer {\npublic:\n    template<typename T>\n    void write_le(T value) {\n        uint8_t bytes[sizeof(T)];\n        std::memcpy(bytes, &value, sizeof(T));\n        data_.insert(data_.end(), bytes, bytes + sizeof(T));\n    }\n\n"@
        + "    template<typename T>\n    void write_be(T value) {\n        for (size_t i = sizeof(T); i > 0; --i) {\n            data_.push_back(static_cast<uint8_t>((value >> ((i - 1) * 8)) & 0xFF));\n        }\n    }\n\n"@
        + "    std::vector<uint8_t> finish() { return std::move(data_); }\n\nprivate:\n    std::vector<uint8_t> data_;\n};\n\n"@
}

/// The whole prologue of a generated header, opening the namespace.
pub open spec fn header_start_text(ns: Seq<char>) -> Seq<char> {
    "#pragma once\n\n"@ + include_line("cstdint"@) + include_line("array"@) + include_line(
        "vector"@,
    ) + include_line("span"@) + include_line("optional"@) + include_line("string"@)
        + include_line("stdexcept"@) + include_line("cstring"@) + "\nnamespace "@ + ns + " {\n\n"@
        + reader_text() + writer_text()
}

/// The epilogue closing the namespace.
pub open spec fn header_end_text(ns: Seq<char>) -> Seq<char> {
    "\n} // namespace "@ + ns + "\n"@
}

/// The prologue of a generated header: reader, writer, and parse-error
/// type inside the given namespace.
pub fn generate_header_start(namespace: &str) -> (r: String)
    ensures
        r@ == header_start_text(namespace@),
{
    let mut s = String::from_str("#pragma once\n\n");
    push_include_line(&mut s, "cstdint");
    push_include_line(&mut s, "array");
    push_include_line(&mut s, "vector");
    push_include_line(&mut s, "span");
    push_include_line(&mut s, "optional");
    push_include_line(&mut s, "string");
    push_include_line(&mut s, "stdexcept");
    push_include_line(&mut s, "cstring");
    s.append("\nnamespace ");
    s.append(namespace);
    s.append(" {\n\n");
    s.append("class ParseError : public std::runtime_error {\npublic:\n    explicit ParseError(const std::string& message)\n        : std::runtime_error(message) {}\n};\n\n");
    s.append("class Reader {\npublic:\n    explicit Reader(std::span<const uint8_t> data)\n        : data_(data), position_(0) {}\n\n");
    s.append("    template<typename T>\n    T read_le() {\n        if (position_ + sizeof(T) > data_.size()) {\n            throw ParseError(\"Unexpected end of data\");\n        }\n        T value;\n        std::memcpy(&value, &data_[position_], sizeof(T));\n        position_ += sizeof(T);\n        return value;\n    }\n\n");
    s.append("    template<typename T>\n    T read_be() {\n        if (position_ + sizeof(T) > data_.size()) {\n            throw ParseError(\"Unexpected end of data\");\n        }\n        T value = 0;\n        for (size_t i = 0; i < sizeof(T); ++i) {\n            value = (value << 8) | data_[position_ + i];\n        }\n        position_ += sizeof(T);\n        return value;\n    }\n\n");
    s.append("    void skip(size_t bytes) {\n        if (position_ + bytes > data_.size()) {\n            throw ParseError(\"Unexpected end of data during skip\");\n        }\n        position_ += bytes;\n    }\n\n");
    s.append("    size_t position() const { return position_; }\n    size_t remaining() const { return data_.size() - position_; }\n\nprivate:\n    std::span<const uint8_t> data_;\n    size_t position_;\n};\n\n");
    s.append("class Writer {\npublic:\n    template<typename T>\n    void write_le(T value) {\n        uint8_t bytes[sizeof(T)];\n        std::memcpy(bytes, &value, sizeof(T));\n        data_.insert(data_.end(), bytes, bytes + sizeof(T));\n    }\n\n");
    s.append("    template<typename T>\n    void write_be(T value) {\n        for (size_t i = sizeof(T); i > 0; --i) {\n            data_.push_back(static_cast<uint8_t>((value >> ((i - 1) * 8)) & 0xFF));\n        }\n    }\n\n");
    s.append("    std::vector<uint8_t> finish() { return std::move(data_); }\n\nprivate:\n    std::vector<uint8_t> data_;\n};\n\n");
    proof {
        assert(s@ =~= header_start_text(namespace@));
    }
    s
}

/// The epilogue of a generated header.
pub fn generate_header_end(namespace: &str) -> (r: String)
    ensures
        r@ == header_end_text(namespace@),
{
    let mut s = String::from_str("\n} // namespace ");
    s.append(namespace);
    s.append("\n");
    proof {
        assert(s@ =~= header_end_text(namespace@));
    }
    s
}

/// The field lines of a struct declaration from index `i` on, appended
/// to the text built so far.
pub open spec fn struct_fields_text(
    fields: Seq<(Seq<char>, Seq<char>)>,
    i: int,
    acc: Seq<char>,
) -> Seq<char>
    decreases fields.len() - i,
{
    if i < 0 || i >= fields.len() {
        acc
    } else {
        struct_fields_text(fields, i + 1, acc + "    "@ + fields[i].1 + " "@ + fields[i].0 + ";\n"@)
    }
}

/// One struct declaration: the fields, a static `read` factory and a
/// `write` method.
pub open spec fn struct_decl_text(name: Seq<char>, fields: Seq<(Seq<char>, Seq<char>)>) -> Seq<
    char,
> {
    struct_fields_text(fields, 0, "struct "@ + name + " {\n"@) + "\n    static "@ + name
        + " read(Reader& reader);\n"@ + "    void write(Writer& writer) const;\n};\n\n"@
}

/// View of a name/type field list.
pub open spec fn view_field_pairs(s: Seq<(String, String)>) -> Seq<(Seq<char>, Seq<char>)> {
    s.map_values(|p: (String, String)| (p.0@, p.1@))
}

/// One struct declaration over named and typed fields.
#[verifier::loop_isolation(false)]
pub fn generate_struct_declaration(struct_name: &str, fields: &Vec<(String, String)>) -> (r:
    String)
    ensures
        r@ == struct_decl_text(struct_name@, view_field_pairs(fields@)),
{
    let ghost fv = view_field_pairs(fields@);
    proof {
        assert(fv.len() == fields@.len());
    }
    let mut s = String::from_str("struct ");
    s.append(struct_name);
    s.append(" {\n");
    let ghost acc0 = s@;
    let mut i: usize = 0;
    while i < fields.len()
        invariant
            i <= fields@.len(),
            struct_fields_text(fv, i as int, s@) == struct_fields_text(fv, 0, acc0),
        decreases fields@.len() - i,
    {
        proof {
            assert(fv[i as int] == (fields@[i as int].0@, fields@[i as int].1@));
        }
        s.append("    ");
        s.append(fields[i].1.as_str());
        s.append(" ");
        s.append(fields[i].0.as_str());
        s.append(";\n");
        i += 1;
    }
    s.append("\n    static ");
    s.append(struct_name);
    s.append(" read(Reader& reader);\n");
    s.append("    void write(Writer& writer) const;\n};\n\n");
    s
}

} // verus!
