//! The output languages, and what each of them calls the things that the
//! generated lookup code is made of.

use vstd::prelude::*;
use vstd::string::StringExecFns;
use crate::hash::HashSeed;
use crate::item::{ItemType, ItemValue};
use crate::text::str_eq;

verus! {

/// The source text of a hash function in one language.
pub struct HashSource {
    pub body: Seq<char>,
    pub imports: Option<Seq<char>>,
    pub typedefs: Option<Seq<char>>,
}

/// What an optional string holds.
pub open spec fn text_of(s: Option<String>) -> Option<Seq<char>> {
    match s {
        Some(s) => Some(s@),
        None => None,
    }
}

fn copy_text(s: &Option<String>) -> (copy: Option<String>)
    ensures
        text_of(copy) == text_of(*s),
{
    match s {
        Some(s) => Some(s.clone()),
        None => None,
    }
}

/// The source of a first-order hash function.
#[derive(Debug)]
pub struct FOHashData {
    pub body: String,
    pub imports: Option<String>,
    pub typedefs: Option<String>,
}

impl View for FOHashData {
    type V = HashSource;

    open spec fn view(&self) -> HashSource {
        HashSource {
            body: self.body@,
            imports: text_of(self.imports),
            typedefs: text_of(self.typedefs),
        }
    }
}

impl Clone for FOHashData {
    fn clone(&self) -> (copy: Self)
        ensures
            copy@ == self@,
    {
        FOHashData {
            body: self.body.clone(),
            imports: copy_text(&self.imports),
            typedefs: copy_text(&self.typedefs),
        }
    }
}

/// The source of a second-order hash function.
#[derive(Debug)]
pub struct SOHashData {
    pub body: String,
    pub imports: Option<String>,
    pub typedefs: Option<String>,
}

impl View for SOHashData {
    type V = HashSource;

    open spec fn view(&self) -> HashSource {
        HashSource {
            body: self.body@,
            imports: text_of(self.imports),
            typedefs: text_of(self.typedefs),
        }
    }
}

impl Clone for SOHashData {
    fn clone(&self) -> (copy: Self)
        ensures
            copy@ == self@,
    {
        SOHashData {
            body: self.body.clone(),
            imports: copy_text(&self.imports),
            typedefs: copy_text(&self.typedefs),
        }
    }
}

/// The source of the lookup function.
#[derive(Debug)]
pub struct GetData {
    pub body: String,
}

impl View for GetData {
    type V = Seq<char>;

    open spec fn view(&self) -> Seq<char> {
        self.body@
    }
}

impl Clone for GetData {
    fn clone(&self) -> (copy: Self)
        ensures
            copy@ == self@,
    {
        GetData { body: self.body.clone() }
    }
}

/// A language that lookup code is generated in.
#[derive(Debug, Clone, Copy, PartialEq, Eq, Structural)]
pub enum OutputLang {
    C,
    Python,
}

/// One entry of a table of hash sources: the source of the hash `name` in
/// the language `lang`.
pub struct FOHashEntry {
    pub name: String,
    pub lang: String,
    pub data: FOHashData,
}

/// One entry of a table of hash sources: the source of the hash `name` in
/// the language `lang`.
pub struct SOHashEntry {
    pub name: String,
    pub lang: String,
    pub data: SOHashData,
}

/// One entry of the table of lookup sources: the source in the language
/// `lang`.
pub struct GetEntry {
    pub lang: String,
    pub data: GetData,
}

/// The sources of the first-order hashes, by hash and by language.
pub struct FOHashConfig {
    pub functions: Vec<FOHashEntry>,
}

/// The sources of the second-order hashes, by hash and by language.
pub struct SOHashConfig {
    pub functions: Vec<SOHashEntry>,
}

/// The sources of the lookup function, by language.
pub struct GetConfig {
    pub functions: Vec<GetEntry>,
}

/// The first entry for `name` and `lang`, if there is one.
pub open spec fn first_fo_source(entries: Seq<FOHashEntry>, name: Seq<char>, lang: Seq<char>) -> Option<
    HashSource,
>
    decreases entries.len(),
{
    if entries.len() == 0 {
        None
    } else if entries[0].name@ == name && entries[0].lang@ == lang {
        Some(entries[0].data@)
    } else {
        first_fo_source(entries.drop_first(), name, lang)
    }
}

/// The first entry for `name` and `lang`, if there is one.
pub open spec fn first_so_source(entries: Seq<SOHashEntry>, name: Seq<char>, lang: Seq<char>) -> Option<
    HashSource,
>
    decreases entries.len(),
{
    if entries.len() == 0 {
        None
    } else if entries[0].name@ == name && entries[0].lang@ == lang {
        Some(entries[0].data@)
    } else {
        first_so_source(entries.drop_first(), name, lang)
    }
}

/// The first entry for `lang`, if there is one.
pub open spec fn first_get_source(entries: Seq<GetEntry>, lang: Seq<char>) -> Option<Seq<char>>
    decreases entries.len(),
{
    if entries.len() == 0 {
        None
    } else if entries[0].lang@ == lang {
        Some(entries[0].data@)
    } else {
        first_get_source(entries.drop_first(), lang)
    }
}

/// What an optional source holds.
pub open spec fn fo_source_of(d: Option<FOHashData>) -> Option<HashSource> {
    match d {
        Some(d) => Some(d@),
        None => None,
    }
}

/// What an optional source holds.
pub open spec fn so_source_of(d: Option<SOHashData>) -> Option<HashSource> {
    match d {
        Some(d) => Some(d@),
        None => None,
    }
}

/// What an optional source holds.
pub open spec fn get_source_of(d: Option<GetData>) -> Option<Seq<char>> {
    match d {
        Some(d) => Some(d@),
        None => None,
    }
}

/// An integer type that the output languages have a name for.
pub trait MappedInt {
    /// The name that the type has here.
    spec fn label() -> Seq<char>;

    fn name() -> (n: &'static str)
        ensures
            n@ == Self::label(),
    ;
}

impl MappedInt for u32 {
    open spec fn label() -> Seq<char> {
        "u32"@
    }

    fn name() -> (n: &'static str) {
        "u32"
    }
}

impl MappedInt for u64 {
    open spec fn label() -> Seq<char> {
        "u64"@
    }

    fn name() -> (n: &'static str) {
        "u64"
    }
}

impl OutputLang {
    /// The file extension that stands for the language.
    pub open spec fn extension(self) -> Seq<char> {
        match self {
            OutputLang::C => "c"@,
            OutputLang::Python => "py"@,
        }
    }

    /// The language that a file extension stands for, if any.
    pub open spec fn of_extension(ext: Seq<char>) -> Option<OutputLang> {
        if ext == "c"@ {
            Some(OutputLang::C)
        } else if ext == "py"@ {
            Some(OutputLang::Python)
        } else {
            None
        }
    }

    /// What the language calls an integer type that is named `name` here.
    pub open spec fn type_for(self, name: Seq<char>) -> Option<Seq<char>> {
        if name == "u32"@ {
            Some(
                match self {
                    OutputLang::C => "unsigned int"@,
                    OutputLang::Python => "int"@,
                },
            )
        } else if name == "u64"@ {
            Some(
                match self {
                    OutputLang::C => "unsigned long long"@,
                    OutputLang::Python => "int"@,
                },
            )
        } else {
            None
        }
    }

    /// What the language calls the type of a payload.
    pub open spec fn payload_type(self, t: ItemValue) -> Seq<char> {
        match self {
            OutputLang::C => match t {
                ItemValue::Str(_) => "char*"@,
                ItemValue::I32(_) => "int"@,
                ItemValue::I64(_) => "long long"@,
                ItemValue::U32(_) => "unsigned int"@,
                ItemValue::U64(_) => "unsigned long long"@,
            },
            OutputLang::Python => match t {
                ItemValue::Str(_) => "str"@,
                _ => "int"@,
            },
        }
    }

    /// The expression for the size in bytes of the key named `key_name`.
    pub open spec fn key_size(self, t: ItemValue, key_name: Seq<char>) -> Seq<char> {
        match self {
            OutputLang::C => match t {
                ItemValue::Str(_) => "strlen("@ + key_name + ")"@,
                ItemValue::I32(_) => "sizeof(int)"@,
                ItemValue::I64(_) => "sizeof(long int)"@,
                ItemValue::U32(_) => "sizeof(unsigned int)"@,
                ItemValue::U64(_) => "sizeof(unsigned long int)"@,
            },
            OutputLang::Python => ""@,
        }
    }

    /// What follows a key to turn it into bytes.
    pub open spec fn key_conversion_end(self, t: ItemValue) -> Seq<char> {
        match self {
            OutputLang::Python => match t {
                ItemValue::Str(_) => ".encode(errors=\"replace\"))"@,
                ItemValue::I32(_) => "to_bytes(4)"@,
                ItemValue::I64(_) => "to_bytes(8)"@,
                ItemValue::U32(_) => "to_bytes(4)"@,
                ItemValue::U64(_) => "to_bytes(8)"@,
            },
            OutputLang::C => ""@,
        }
    }

    /// The language that the file extension `s` stands for.
    pub fn from_extension(s: &str) -> (lang: Option<OutputLang>)
        ensures
            lang == OutputLang::of_extension(s@),
    {
        if str_eq(s, "c") {
            Some(OutputLang::C)
        } else if str_eq(s, "py") {
            Some(OutputLang::Python)
        } else {
            None
        }
    }

    /// The file extension that stands for the language.
    pub fn to_string(&self) -> (s: String)
        ensures
            s@ == self.extension(),
    {
        match self {
            OutputLang::C => "c".to_owned(),
            OutputLang::Python => "py".to_owned(),
        }
    }

    /// What ends a statement.
    pub fn get_line_end(&self) -> (s: &'static str)
        ensures
            s@ == (match self {
                OutputLang::C => ";"@,
                OutputLang::Python => ""@,
            }),
    {
        match self {
            OutputLang::C => ";",
            OutputLang::Python => "",
        }
    }

    /// What the language calls the type of a seed. C has no name for a
    /// 128-bit seed.
    pub fn map_seed(&self, seed: &HashSeed) -> (s: &'static str)
        requires
            !(self is C && seed is Bits128),
        ensures
            s@ == (match self {
                OutputLang::C => match seed {
                    HashSeed::Bits32(_) => "unsigned int"@,
                    _ => "unsigned long long"@,
                },
                OutputLang::Python => "int"@,
            }),
    {
        match self {
            OutputLang::C => match seed {
                HashSeed::Bits32(_) => "unsigned int",
                _ => "unsigned long long",
            },
            OutputLang::Python => "int",
        }
    }

    /// What the language calls the integer type named `name`: there is an
    /// answer for `u32` and for `u64`.
    pub fn map_type_name(&self, name: &str) -> (s: Option<&'static str>)
        ensures
            s is Some == self.type_for(name@) is Some,
            s matches Some(text) ==> Some(text@) == self.type_for(name@),
    {
        if str_eq(name, "u32") {
            match self {
                OutputLang::C => Some("unsigned int"),
                OutputLang::Python => Some("int"),
            }
        } else if str_eq(name, "u64") {
            match self {
                OutputLang::C => Some("unsigned long long"),
                OutputLang::Python => Some("int"),
            }
        } else {
            None
        }
    }

    /// What the language calls the type of the value given, which has to
    /// be one that it has a name for.
    pub fn map_type<T: MappedInt>(&self, _value: &T) -> (s: &'static str)
        requires
            self.type_for(T::label()) is Some,
        ensures
            Some(s@) == self.type_for(T::label()),
    {
        match self.map_type_name(T::name()) {
            Some(s) => s,
            None => "",
        }
    }

    /// What opens a comment.
    pub fn get_comment_start(&self) -> (s: &'static str)
        ensures
            s@ == (match self {
                OutputLang::C => "/*"@,
                OutputLang::Python => "#"@,
            }),
    {
        match self {
            OutputLang::C => "/*",
            OutputLang::Python => "#",
        }
    }

    /// What closes a comment.
    pub fn get_comment_end(&self) -> (s: &'static str)
        ensures
            s@ == (match self {
                OutputLang::C => "*/"@,
                OutputLang::Python => ""@,
            }),
    {
        match self {
            OutputLang::C => "*/",
            OutputLang::Python => "",
        }
    }

    /// What the language calls the type of a payload.
    pub fn get_type(&self, t: &ItemType) -> (s: &'static str)
        ensures
            s@ == self.payload_type(t@),
    {
        match self {
            OutputLang::C => match t {
                ItemType::Str(_) => "char*",
                ItemType::I32(_) => "int",
                ItemType::I64(_) => "long long",
                ItemType::U32(_) => "unsigned int",
                ItemType::U64(_) => "unsigned long long",
            },
            OutputLang::Python => match t {
                ItemType::Str(_) => "str",
                ItemType::I32(_) => "int",
                ItemType::I64(_) => "int",
                ItemType::U32(_) => "int",
                ItemType::U64(_) => "int",
            },
        }
    }

    /// The imports that the lookup code needs for keys of this type.
    pub fn get_imports_from_type(&self, t: &ItemType) -> (s: Option<String>)
        ensures
            text_of(s) == (if self is C && t@ is Str {
                Some("#include <string.h>\n"@)
            } else {
                None
            }),
    {
        match self {
            OutputLang::C => match t {
                ItemType::Str(_) => Some("#include <string.h>\n".to_owned()),
                _ => None,
            },
            _ => None,
        }
    }

    /// The imports that the test of the lookup code needs for keys of this
    /// type.
    pub fn get_imports_for_test(&self, t: &ItemType) -> (s: Option<String>)
        ensures
            text_of(s) == (if self is C && t@ is Str {
                Some("#include <assert.h>\n"@)
            } else {
                None
            }),
    {
        match self {
            OutputLang::C => match t {
                ItemType::Str(_) => Some("#include <assert.h>\n".to_owned()),
                _ => None,
            },
            _ => None,
        }
    }

    /// The pattern of an array declaration, with its places for type, name
    /// and size in braces.
    pub fn get_array_decl(&self) -> (s: &'static str)
        ensures
            s@ == (match self {
                OutputLang::C => "const {type} {name}[{size}]"@,
                OutputLang::Python => "{name}"@,
            }),
    {
        match self {
            OutputLang::C => "const {type} {name}[{size}]",
            OutputLang::Python => "{name}",
        }
    }

    /// What opens the elements of an array.
    pub fn get_array_start(&self) -> (s: &'static str)
        ensures
            s@ == (match self {
                OutputLang::C => "{"@,
                OutputLang::Python => "["@,
            }),
    {
        match self {
            OutputLang::C => "{",
            OutputLang::Python => "[",
        }
    }

    /// What closes the elements of an array.
    pub fn get_array_end(&self) -> (s: &'static str)
        ensures
            s@ == (match self {
                OutputLang::C => "}"@,
                OutputLang::Python => "]"@,
            }),
    {
        match self {
            OutputLang::C => "}",
            OutputLang::Python => "]",
        }
    }

    /// What stands between the elements of an array.
    pub fn get_array_sep(&self) -> (s: &'static str)
        ensures
            s@ == ","@,
    {
        match self {
            OutputLang::C => ",",
            OutputLang::Python => ",",
        }
    }

    /// What stands before a key to take its address.
    pub fn get_key_address(&self, t: &ItemType) -> (s: &'static str)
        ensures
            s@ == (if self is C && !(t@ is Str) {
                "&"@
            } else {
                ""@
            }),
    {
        match self {
            OutputLang::C => match t {
                ItemType::Str(_) => "",
                ItemType::I32(_) => "&",
                ItemType::I64(_) => "&",
                ItemType::U32(_) => "&",
                ItemType::U64(_) => "&",
            },
            _ => "",
        }
    }

    /// The expression for the size in bytes of the key named `key_name`.
    pub fn get_key_size(&self, t: &ItemType, key_name: &str) -> (s: String)
        ensures
            s@ == self.key_size(t@, key_name@),
    {
        match self {
            OutputLang::C => match t {
                ItemType::Str(_) => {
                    let mut s = "strlen(".to_owned();
                    s.append(key_name);
                    s.append(")");
                    s
                },
                ItemType::I32(_) => "sizeof(int)".to_owned(),
                ItemType::I64(_) => "sizeof(long int)".to_owned(),
                ItemType::U32(_) => "sizeof(unsigned int)".to_owned(),
                ItemType::U64(_) => "sizeof(unsigned long int)".to_owned(),
            },
            _ => "".to_owned(),
        }
    }

    /// What stands before a key to turn it into bytes.
    pub fn get_key_conversion_start(&self, t: &ItemType) -> (s: &'static str)
        ensures
            s@ == (if self is Python && t@ is Str {
                "bytes("@
            } else {
                ""@
            }),
    {
        match self {
            OutputLang::Python => match t {
                ItemType::Str(_) => "bytes(",
                _ => "",
            },
            _ => "",
        }
    }

    /// What follows a key to turn it into bytes.
    pub fn get_key_conversion_end(&self, t: &ItemType) -> (s: &'static str)
        ensures
            s@ == self.key_conversion_end(t@),
    {
        match self {
            OutputLang::Python => match t {
                ItemType::Str(_) => ".encode(errors=\"replace\"))",
                ItemType::I32(_) => "to_bytes(4)",
                ItemType::I64(_) => "to_bytes(8)",
                ItemType::U32(_) => "to_bytes(4)",
                ItemType::U64(_) => "to_bytes(8)",
            },
            _ => "",
        }
    }

    /// The source of the first-order hash `name` in this language: a copy of
    /// the first entry of `config` for that name and this language.
    pub fn get_fo_hash_data(&self, config: &FOHashConfig, name: &str) -> (data: Option<FOHashData>)
        ensures
            fo_source_of(data) == first_fo_source(config.functions@, name@, self.extension()),
    {
        let lang = self.to_string();
        let ghost all = config.functions@;
        let mut i: usize = 0;
        proof {
            assert(all.skip(0) =~= all);
        }
        while i < config.functions.len()
            invariant
                i <= config.functions.len(),
                all == config.functions@,
                lang@ == self.extension(),
                first_fo_source(all, name@, lang@) == first_fo_source(
                    all.skip(i as int),
                    name@,
                    lang@,
                ),
            decreases config.functions.len() - i,
        {
            let entry = &config.functions[i];
            proof {
                assert(all.skip(i as int)[0] == all[i as int]);
                assert(all.skip(i as int).drop_first() =~= all.skip(i + 1));
            }
            if str_eq(entry.name.as_str(), name) && str_eq(entry.lang.as_str(), lang.as_str()) {
                return Some(entry.data.clone());
            }
            i += 1;
        }
        None
    }

    /// The source of the second-order hash `name` in this language: a copy
    /// of the first entry of `config` for that name and this language.
    pub fn get_so_hash_data(&self, config: &SOHashConfig, name: &str) -> (data: Option<SOHashData>)
        ensures
            so_source_of(data) == first_so_source(config.functions@, name@, self.extension()),
    {
        let lang = self.to_string();
        let ghost all = config.functions@;
        let mut i: usize = 0;
        proof {
            assert(all.skip(0) =~= all);
        }
        while i < config.functions.len()
            invariant
                i <= config.functions.len(),
                all == config.functions@,
                lang@ == self.extension(),
                first_so_source(all, name@, lang@) == first_so_source(
                    all.skip(i as int),
                    name@,
                    lang@,
                ),
            decreases config.functions.len() - i,
        {
            let entry = &config.functions[i];
            proof {
                assert(all.skip(i as int)[0] == all[i as int]);
                assert(all.skip(i as int).drop_first() =~= all.skip(i + 1));
            }
            if str_eq(entry.name.as_str(), name) && str_eq(entry.lang.as_str(), lang.as_str()) {
                return Some(entry.data.clone());
            }
            i += 1;
        }
        None
    }

    /// The source of the lookup function in this language: a copy of the
    /// first entry of `config` for this language.
    pub fn get_get_data(&self, config: &GetConfig) -> (data: Option<GetData>)
        ensures
            get_source_of(data) == first_get_source(config.functions@, self.extension()),
    {
        let lang = self.to_string();
        let ghost all = config.functions@;
        let mut i: usize = 0;
        proof {
            assert(all.skip(0) =~= all);
        }
        while i < config.functions.len()
            invariant
                i <= config.functions.len(),
                all == config.functions@,
                lang@ == self.extension(),
                first_get_source(all, lang@) == first_get_source(all.skip(i as int), lang@),
            decreases config.functions.len() - i,
        {
            let entry = &config.functions[i];
            proof {
                assert(all.skip(i as int)[0] == all[i as int]);
                assert(all.skip(i as int).drop_first() =~= all.skip(i + 1));
            }
            if str_eq(entry.lang.as_str(), lang.as_str()) {
                return Some(entry.data.clone());
            }
            i += 1;
        }
        None
    }
}

} // verus!
