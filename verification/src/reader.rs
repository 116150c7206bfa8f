//! The header model — three fixed-shape records assembled by type-name
//! dispatch — and the reader protocol: the extension point plus the
//! default whole-file read/dispatch algorithm.

use crate::convert::{ConversionError, FromParameter};
use crate::structure::{EntityInstance, ExchangeFile, Parameter, TypedParameter};
use vstd::prelude::*;

verus! {

/// Why a whole-file read failed.
#[derive(Debug)]
pub enum ReadError {
    /// The grammar parser rejected the bytes; its message passes through
    /// unchanged.
    Parse(String),
    /// A header section whose type name is none of the three the header
    /// model knows; the unrecognized name is carried along.
    UnrecognizedSection(String),
    /// A header field's parameter did not have the shape its record
    /// expects.
    Conversion(ConversionError),
}

/// The three section names the header model recognizes.
pub open spec fn recognized_section(name: Seq<char>) -> bool {
    ||| name == "FILE_DESCRIPTION"@
    ||| name == "FILE_NAME"@
    ||| name == "FILE_SCHEMA"@
}

/// ```text
/// ENTITY file_description;
/// description : LIST [1:?] OF STRING (256);
/// implementation_level : STRING (256);
/// END_ENTITY;
/// ```
#[derive(Debug)]
pub struct StepFileDescription {
    description: Vec<String>,
    implementation_level: String,
}

impl StepFileDescription {
    pub closed spec fn spec_description(self) -> Vec<String> {
        self.description
    }

    pub closed spec fn spec_implementation_level(self) -> String {
        self.implementation_level
    }

    /// The record's shape as a function of its positional parameter list:
    /// present positions convert by the uniform rules, missing positions
    /// default, extra positions are ignored.
    pub open spec fn formed_from(self, ps: Seq<Parameter>) -> bool {
        &&& if 0 < ps.len() {
            <Vec<String> as FromParameter>::converts_to(ps[0], self.spec_description())
        } else {
            self.spec_description()@.len() == 0
        }
        &&& if 1 < ps.len() {
            <String as FromParameter>::converts_to(ps[1], self.spec_implementation_level())
        } else {
            self.spec_implementation_level()@.len() == 0
        }
    }

    /// Exactly the parameter lists this record accepts.
    pub open spec fn params_ok(ps: Seq<Parameter>) -> bool {
        &&& (0 < ps.len() ==> <Vec<String> as FromParameter>::convertible(ps[0]))
        &&& (1 < ps.len() ==> <String as FromParameter>::convertible(ps[1]))
    }

    pub fn description(&self) -> (r: &Vec<String>)
        ensures
            *r == self.spec_description(),
    {
        &self.description
    }

    pub fn implementation_level(&self) -> (r: &String)
        ensures
            *r == self.spec_implementation_level(),
    {
        &self.implementation_level
    }

    pub fn form_parameters(parameters: Vec<Parameter>) -> (r: Result<
        StepFileDescription,
        ConversionError,
    >)
        ensures
            (r is Ok) == Self::params_ok(parameters@),
            r matches Ok(d) ==> d.formed_from(parameters@),
    {
        let ghost gps: Seq<Parameter> = parameters@;
        let mut rest = parameters;
        let mut description: Vec<String> = Vec::new();
        let mut implementation_level: String = String::new();
        if rest.len() > 0 {
            let p = rest.remove(0);
            proof {
                assert(p == gps[0]);
            }
            match <Vec<String> as FromParameter>::from_parameter(p) {
                Ok(v) => {
                    description = v;
                },
                Err(e) => {
                    return Err(e);
                },
            }
            if rest.len() > 0 {
                let p = rest.remove(0);
                proof {
                    assert(p == gps[1]);
                }
                match <String as FromParameter>::from_parameter(p) {
                    Ok(v) => {
                        implementation_level = v;
                    },
                    Err(e) => {
                        return Err(e);
                    },
                }
            }
        }
        Ok(StepFileDescription { description, implementation_level })
    }
}

/// ```text
/// ENTITY file_name;
/// name : STRING (256);
/// time_stamp : time_stamp_text;
/// author : LIST [ 1 : ? ] OF STRING (256);
/// organization : LIST [ 1 : ? ] OF STRING (256);
/// preprocessor_version : STRING (256);
/// originating_system : STRING (256);
/// authorization : STRING (256);
/// END_ENTITY;
/// ```
#[derive(Debug)]
pub struct StepFileName {
    name: String,
    time_stamp: String,
    author: Vec<String>,
    organization: Vec<String>,
    preprocessor_version: String,
    originating_system: String,
    authorisation: String,
}

impl StepFileName {
    pub closed spec fn spec_name(self) -> String {
        self.name
    }

    pub closed spec fn spec_time_stamp(self) -> String {
        self.time_stamp
    }

    pub closed spec fn spec_author(self) -> Vec<String> {
        self.author
    }

    pub closed spec fn spec_organization(self) -> Vec<String> {
        self.organization
    }

    pub closed spec fn spec_preprocessor_version(self) -> String {
        self.preprocessor_version
    }

    pub closed spec fn spec_originating_system(self) -> String {
        self.originating_system
    }

    pub closed spec fn spec_authorisation(self) -> String {
        self.authorisation
    }

    /// The record's shape as a function of its positional parameter list:
    /// present positions convert by the uniform rules, missing positions
    /// default, extra positions are ignored.
    pub open spec fn formed_from(self, ps: Seq<Parameter>) -> bool {
        &&& if 0 < ps.len() {
            <String as FromParameter>::converts_to(ps[0], self.spec_name())
        } else {
            self.spec_name()@.len() == 0
        }
        &&& if 1 < ps.len() {
            <String as FromParameter>::converts_to(ps[1], self.spec_time_stamp())
        } else {
            self.spec_time_stamp()@.len() == 0
        }
        &&& if 2 < ps.len() {
            <Vec<String> as FromParameter>::converts_to(ps[2], self.spec_author())
        } else {
            self.spec_author()@.len() == 0
        }
        &&& if 3 < ps.len() {
            <Vec<String> as FromParameter>::converts_to(ps[3], self.spec_organization())
        } else {
            self.spec_organization()@.len() == 0
        }
        &&& if 4 < ps.len() {
            <String as FromParameter>::converts_to(ps[4], self.spec_preprocessor_version())
        } else {
            self.spec_preprocessor_version()@.len() == 0
        }
        &&& if 5 < ps.len() {
            <String as FromParameter>::converts_to(ps[5], self.spec_originating_system())
        } else {
            self.spec_originating_system()@.len() == 0
        }
        &&& if 6 < ps.len() {
            <String as FromParameter>::converts_to(ps[6], self.spec_authorisation())
        } else {
            self.spec_authorisation()@.len() == 0
        }
    }

    /// Exactly the parameter lists this record accepts.
    pub open spec fn params_ok(ps: Seq<Parameter>) -> bool {
        &&& (0 < ps.len() ==> <String as FromParameter>::convertible(ps[0]))
        &&& (1 < ps.len() ==> <String as FromParameter>::convertible(ps[1]))
        &&& (2 < ps.len() ==> <Vec<String> as FromParameter>::convertible(ps[2]))
        &&& (3 < ps.len() ==> <Vec<String> as FromParameter>::convertible(ps[3]))
        &&& (4 < ps.len() ==> <String as FromParameter>::convertible(ps[4]))
        &&& (5 < ps.len() ==> <String as FromParameter>::convertible(ps[5]))
        &&& (6 < ps.len() ==> <String as FromParameter>::convertible(ps[6]))
    }

    pub fn name(&self) -> (r: &String)
        ensures
            *r == self.spec_name(),
    {
        &self.name
    }

    pub fn time_stamp(&self) -> (r: &String)
        ensures
            *r == self.spec_time_stamp(),
    {
        &self.time_stamp
    }

    pub fn author(&self) -> (r: &Vec<String>)
        ensures
            *r == self.spec_author(),
    {
        &self.author
    }

    pub fn organization(&self) -> (r: &Vec<String>)
        ensures
            *r == self.spec_organization(),
    {
        &self.organization
    }

    pub fn preprocessor_version(&self) -> (r: &String)
        ensures
            *r == self.spec_preprocessor_version(),
    {
        &self.preprocessor_version
    }

    pub fn originating_system(&self) -> (r: &String)
        ensures
            *r == self.spec_originating_system(),
    {
        &self.originating_system
    }

    pub fn authorisation(&self) -> (r: &String)
        ensures
            *r == self.spec_authorisation(),
    {
        &self.authorisation
    }

    pub fn form_parameters(parameters: Vec<Parameter>) -> (r: Result<
        StepFileName,
        ConversionError,
    >)
        ensures
            (r is Ok) == Self::params_ok(parameters@),
            r matches Ok(d) ==> d.formed_from(parameters@),
    {
        let ghost gps: Seq<Parameter> = parameters@;
        let mut rest = parameters;
        let mut name: String = String::new();
        let mut time_stamp: String = String::new();
        let mut author: Vec<String> = Vec::new();
        let mut organization: Vec<String> = Vec::new();
        let mut preprocessor_version: String = String::new();
        let mut originating_system: String = String::new();
        let mut authorisation: String = String::new();
        if rest.len() > 0 {
            let p = rest.remove(0);
            proof {
                assert(p == gps[0]);
            }
            match <String as FromParameter>::from_parameter(p) {
                Ok(v) => {
                    name = v;
                },
                Err(e) => {
                    return Err(e);
                },
            }
            if rest.len() > 0 {
                let p = rest.remove(0);
                proof {
                    assert(p == gps[1]);
                }
                match <String as FromParameter>::from_parameter(p) {
                    Ok(v) => {
                        time_stamp = v;
                    },
                    Err(e) => {
                        return Err(e);
                    },
                }
                if rest.len() > 0 {
                    let p = rest.remove(0);
                    proof {
                        assert(p == gps[2]);
                    }
                    match <Vec<String> as FromParameter>::from_parameter(p) {
                        Ok(v) => {
                            author = v;
                        },
                        Err(e) => {
                            return Err(e);
                        },
                    }
                    if rest.len() > 0 {
                        let p = rest.remove(0);
                        proof {
                            assert(p == gps[3]);
                        }
                        match <Vec<String> as FromParameter>::from_parameter(p) {
                            Ok(v) => {
                                organization = v;
                            },
                            Err(e) => {
                                return Err(e);
                            },
                        }
                        if rest.len() > 0 {
                            let p = rest.remove(0);
                            proof {
                                assert(p == gps[4]);
                            }
                            match <String as FromParameter>::from_parameter(p) {
                                Ok(v) => {
                                    preprocessor_version = v;
                                },
                                Err(e) => {
                                    return Err(e);
                                },
                            }
                            if rest.len() > 0 {
                                let p = rest.remove(0);
                                proof {
                                    assert(p == gps[5]);
                                }
                                match <String as FromParameter>::from_parameter(p) {
                                    Ok(v) => {
                                        originating_system = v;
                                    },
                                    Err(e) => {
                                        return Err(e);
                                    },
                                }
                                if rest.len() > 0 {
                                    let p = rest.remove(0);
                                    proof {
                                        assert(p == gps[6]);
                                    }
                                    match <String as FromParameter>::from_parameter(p) {
                                        Ok(v) => {
                                            authorisation = v;
                                        },
                                        Err(e) => {
                                            return Err(e);
                                        },
                                    }
                                }
                            }
                        }
                    }
                }
            }
        }
        Ok(
            StepFileName {
                name,
                time_stamp,
                author,
                organization,
                preprocessor_version,
                originating_system,
                authorisation,
            },
        )
    }
}

/// ```text
/// ENTITY file_schema;
/// schema_identifiers : LIST [1:?] OF UNIQUE schema_name;
/// END_ENTITY;
/// ```
#[derive(Debug)]
pub struct StepFileSchema {
    schema_identifiers: Vec<String>,
}

impl StepFileSchema {
    pub closed spec fn spec_schema_identifiers(self) -> Vec<String> {
        self.schema_identifiers
    }

    /// The record's shape as a function of its positional parameter list:
    /// a present first position converts by the uniform rules, a missing
    /// one defaults, extra positions are ignored.
    pub open spec fn formed_from(self, ps: Seq<Parameter>) -> bool {
        if 0 < ps.len() {
            <Vec<String> as FromParameter>::converts_to(ps[0], self.spec_schema_identifiers())
        } else {
            self.spec_schema_identifiers()@.len() == 0
        }
    }

    /// Exactly the parameter lists this record accepts.
    pub open spec fn params_ok(ps: Seq<Parameter>) -> bool {
        0 < ps.len() ==> <Vec<String> as FromParameter>::convertible(ps[0])
    }

    pub fn schema_identifiers(&self) -> (r: &Vec<String>)
        ensures
            *r == self.spec_schema_identifiers(),
    {
        &self.schema_identifiers
    }

    pub fn form_parameters(parameters: Vec<Parameter>) -> (r: Result<
        StepFileSchema,
        ConversionError,
    >)
        ensures
            (r is Ok) == Self::params_ok(parameters@),
            r matches Ok(d) ==> d.formed_from(parameters@),
    {
        let ghost gps: Seq<Parameter> = parameters@;
        let mut rest = parameters;
        let mut schema_identifiers: Vec<String> = Vec::new();
        if rest.len() > 0 {
            let p = rest.remove(0);
            proof {
                assert(p == gps[0]);
            }
            match <Vec<String> as FromParameter>::from_parameter(p) {
                Ok(v) => {
                    schema_identifiers = v;
                },
                Err(e) => {
                    return Err(e);
                },
            }
        }
        Ok(StepFileSchema { schema_identifiers })
    }
}

/// The header's last section with the given type name, if any; later
/// sections overwrite earlier ones, so this is the one whose fields the
/// assembled header keeps.
pub open spec fn last_with_name(h: Seq<TypedParameter>, name: Seq<char>) -> Option<TypedParameter>
    decreases h.len(),
{
    if h.len() == 0 {
        None
    } else if h.last().name@ == name {
        Some(h.last())
    } else {
        last_with_name(h.drop_last(), name)
    }
}

/// Whether one header section is acceptable: a recognized name whose
/// parameter list its record converts.
pub open spec fn section_ok(tp: TypedParameter) -> bool {
    &&& recognized_section(tp.name@)
    &&& tp.name@ == "FILE_DESCRIPTION"@ ==> StepFileDescription::params_ok(tp.parameters@)
    &&& tp.name@ == "FILE_NAME"@ ==> StepFileName::params_ok(tp.parameters@)
    &&& tp.name@ == "FILE_SCHEMA"@ ==> StepFileSchema::params_ok(tp.parameters@)
}

/// The first header section that assembly rejects, if any: assembly works
/// front to back and fails on the first unrecognized or unconvertible
/// section.
pub open spec fn first_bad_section(h: Seq<TypedParameter>) -> Option<TypedParameter>
    decreases h.len(),
{
    if h.len() == 0 {
        None
    } else if !section_ok(h.first()) {
        Some(h.first())
    } else {
        first_bad_section(h.drop_first())
    }
}

/// The assembled header: one record per known section name, each taken
/// from the last section of that name, or left at its default when the
/// header has none.
#[derive(Debug)]
pub struct StepFileHeader {
    file_description: StepFileDescription,
    file_name: StepFileName,
    file_schema: StepFileSchema,
}

impl StepFileHeader {
    pub closed spec fn spec_file_description(self) -> StepFileDescription {
        self.file_description
    }

    pub closed spec fn spec_file_name(self) -> StepFileName {
        self.file_name
    }

    pub closed spec fn spec_file_schema(self) -> StepFileSchema {
        self.file_schema
    }

    /// How an assembled header relates to the section list it came from:
    /// each record is formed from the last section of its name, or from
    /// the empty parameter list (all defaults) when that name never
    /// occurs.
    pub open spec fn assembled_from(self, h: Seq<TypedParameter>) -> bool {
        &&& match last_with_name(h, "FILE_DESCRIPTION"@) {
            Some(tp) => self.spec_file_description().formed_from(tp.parameters@),
            None => self.spec_file_description().formed_from(Seq::empty()),
        }
        &&& match last_with_name(h, "FILE_NAME"@) {
            Some(tp) => self.spec_file_name().formed_from(tp.parameters@),
            None => self.spec_file_name().formed_from(Seq::empty()),
        }
        &&& match last_with_name(h, "FILE_SCHEMA"@) {
            Some(tp) => self.spec_file_schema().formed_from(tp.parameters@),
            None => self.spec_file_schema().formed_from(Seq::empty()),
        }
    }

    pub fn file_description(&self) -> (r: &StepFileDescription)
        ensures
            *r == self.spec_file_description(),
    {
        &self.file_description
    }

    pub fn file_name(&self) -> (r: &StepFileName)
        ensures
            *r == self.spec_file_name(),
    {
        &self.file_name
    }

    pub fn file_schema(&self) -> (r: &StepFileSchema)
        ensures
            *r == self.spec_file_schema(),
    {
        &self.file_schema
    }

    /// Assemble the header by dispatching on each section's type name.
    /// Section order is not required; duplicate sections overwrite
    /// earlier ones; an unrecognized name or an unconvertible field fails
    /// the assembly.
    #[verifier::loop_isolation(false)]
    #[verifier::rlimit(60)]
    pub fn form_parameters(header: Vec<TypedParameter>) -> (r: Result<StepFileHeader, ReadError>)
        ensures
            (r is Ok) == (first_bad_section(header@) is None),
            r matches Ok(hdr) ==> hdr.assembled_from(header@),
            r matches Err(e) ==> first_bad_section(header@) matches Some(tp) && (if
                !recognized_section(tp.name@) {
                e matches ReadError::UnrecognizedSection(n) && n@ == tp.name@
            } else {
                e == ReadError::Conversion(ConversionError)
            }),
    {
        let ghost gh: Seq<TypedParameter> = header@;
        let mut rest = header;
        let mut file_description = StepFileDescription {
            description: Vec::new(),
            implementation_level: String::new(),
        };
        let mut file_name = StepFileName {
            name: String::new(),
            time_stamp: String::new(),
            author: Vec::new(),
            organization: Vec::new(),
            preprocessor_version: String::new(),
            originating_system: String::new(),
            authorisation: String::new(),
        };
        let mut file_schema = StepFileSchema { schema_identifiers: Vec::new() };
        let mut i: usize = 0;
        proof {
            assert(rest.len() <= usize::MAX);
            assert(gh.skip(0) =~= gh);
            assert(file_description.formed_from(Seq::empty()));
            assert(file_name.formed_from(Seq::empty()));
            assert(file_schema.formed_from(Seq::empty()));
        }
        while rest.len() > 0
            invariant
                i + rest@.len() == gh.len(),
                gh.len() <= usize::MAX,
                rest@ == gh.skip(i as int),
                first_bad_section(gh) == first_bad_section(gh.skip(i as int)),
                match last_with_name(gh.take(i as int), "FILE_DESCRIPTION"@) {
                    Some(tp) => file_description.formed_from(tp.parameters@),
                    None => file_description.formed_from(Seq::empty()),
                },
                match last_with_name(gh.take(i as int), "FILE_NAME"@) {
                    Some(tp) => file_name.formed_from(tp.parameters@),
                    None => file_name.formed_from(Seq::empty()),
                },
                match last_with_name(gh.take(i as int), "FILE_SCHEMA"@) {
                    Some(tp) => file_schema.formed_from(tp.parameters@),
                    None => file_schema.formed_from(Seq::empty()),
                },
            decreases rest@.len(),
        {
            let tp = rest.remove(0);
            proof {
                assert(tp == gh[i as int]);
                assert(gh.skip(i as int).first() == tp);
                assert(gh.skip(i as int).drop_first() =~= gh.skip(i as int + 1));
            }
            let ghost gtp: TypedParameter = tp;
            let TypedParameter { name, parameters } = tp;
            if name == "FILE_SCHEMA".to_owned() {
                match StepFileSchema::form_parameters(parameters) {
                    Ok(v) => {
                        file_schema = v;
                    },
                    Err(_) => {
                        proof {
                            assert(!section_ok(gtp));
                            lemma_first_bad_found(gh, i as int);
                        }
                        return Err(ReadError::Conversion(ConversionError));
                    },
                }
            } else if name == "FILE_NAME".to_owned() {
                match StepFileName::form_parameters(parameters) {
                    Ok(v) => {
                        file_name = v;
                    },
                    Err(_) => {
                        proof {
                            assert(!section_ok(gtp));
                            lemma_first_bad_found(gh, i as int);
                        }
                        return Err(ReadError::Conversion(ConversionError));
                    },
                }
            } else if name == "FILE_DESCRIPTION".to_owned() {
                match StepFileDescription::form_parameters(parameters) {
                    Ok(v) => {
                        file_description = v;
                    },
                    Err(_) => {
                        proof {
                            assert(!section_ok(gtp));
                            lemma_first_bad_found(gh, i as int);
                        }
                        return Err(ReadError::Conversion(ConversionError));
                    },
                }
            } else {
                proof {
                    assert(!recognized_section(gtp.name@));
                    assert(!section_ok(gtp));
                    lemma_first_bad_found(gh, i as int);
                }
                return Err(ReadError::UnrecognizedSection(name));
            }
            proof {
                // the three known section names differ: their revealed
                // views have different lengths
                reveal_strlit("FILE_DESCRIPTION");
                reveal_strlit("FILE_NAME");
                reveal_strlit("FILE_SCHEMA");
                assert("FILE_SCHEMA"@.len() == 11);
                assert("FILE_NAME"@.len() == 9);
                assert("FILE_DESCRIPTION"@.len() == 16);
                assert(section_ok(gtp));
                assert(gh.take(i as int + 1).drop_last() =~= gh.take(i as int));
                assert(gh.take(i as int + 1).last() == gtp);
                lemma_last_with_name_step(gh, i as int, "FILE_DESCRIPTION"@);
                lemma_last_with_name_step(gh, i as int, "FILE_NAME"@);
                lemma_last_with_name_step(gh, i as int, "FILE_SCHEMA"@);
            }
            i = i + 1;
        }
        proof {
            assert(gh.take(i as int) =~= gh);
            assert(gh.skip(i as int).len() == 0);
            assert(first_bad_section(gh.skip(i as int)) is None);
        }
        Ok(StepFileHeader { file_description, file_name, file_schema })
    }
}

/// Stepping the "last section with this name" computation by one section.
proof fn lemma_last_with_name_step(h: Seq<TypedParameter>, i: int, name: Seq<char>)
    requires
        0 <= i < h.len(),
    ensures
        last_with_name(h.take(i + 1), name) == (if h[i].name@ == name {
            Some(h[i])
        } else {
            last_with_name(h.take(i), name)
        }),
{
    assert(h.take(i + 1).len() == i + 1);
    assert(h.take(i + 1).last() == h[i]);
    assert(h.take(i + 1).drop_last() =~= h.take(i));
}

/// When every section before `i` is acceptable and section `i` is not,
/// section `i` is the first bad one.
proof fn lemma_first_bad_found(h: Seq<TypedParameter>, i: int)
    requires
        0 <= i < h.len(),
        first_bad_section(h) == first_bad_section(h.skip(i)),
        !section_ok(h[i]),
    ensures
        first_bad_section(h) == Some(h[i]),
{
    assert(h.skip(i).first() == h[i]);
    assert(first_bad_section(h.skip(i)) == Some(h[i]));
}

/// The dispatch record a data section owes its consumer: one `(id,
/// attribute list)` pair per simple instance, in file order; instances
/// whose attribute count is not exactly one contribute nothing.
pub open spec fn simple_records(data: Seq<EntityInstance>) -> Seq<(i64, TypedParameter)>
    decreases data.len(),
{
    if data.len() == 0 {
        Seq::empty()
    } else {
        let rest = simple_records(data.drop_last());
        let inst = data.last();
        if inst.value@.len() == 1 {
            rest.push((inst.id, inst.value@[0]))
        } else {
            rest
        }
    }
}

/// How many instances of a data section are skipped (not simple).
pub open spec fn skipped_count(data: Seq<EntityInstance>) -> nat
    decreases data.len(),
{
    if data.len() == 0 {
        0
    } else {
        skipped_count(data.drop_last()) + (if data.last().value@.len() == 1 {
            0nat
        } else {
            1nat
        })
    }
}

/// Law: every instance is considered exactly once — each is either
/// dispatched (simple) or counted as skipped, never both, never neither.
pub proof fn lemma_dispatch_partition(data: Seq<EntityInstance>)
    ensures
        simple_records(data).len() + skipped_count(data) == data.len(),
    decreases data.len(),
{
    if data.len() > 0 {
        lemma_dispatch_partition(data.drop_last());
    }
}

/// What a successful whole-file read hands back besides the dispatched
/// instances: the assembled header, and how many complex (multi-typed)
/// instances were skipped — skipping is a documented limitation, so the
/// count is exposed rather than hidden.
#[derive(Debug)]
pub struct ReadOutcome {
    pub header: StepFileHeader,
    pub skipped: usize,
}

/// The extension point and default whole-file algorithm of the reader
/// protocol.
///
/// `recorded` is the abstract trace of every dispatched simple instance,
/// in order; `read_simple_entity` must extend it by exactly the pair it
/// was handed, and `read` dispatches exactly the simple instances of the
/// file, in file order.
pub trait StepReader: Sized {
    /// The `(id, attribute list)` pairs dispatched so far, in order.
    spec fn recorded(&self) -> Seq<(i64, TypedParameter)>;

    /// Consume one simple entity instance. Implementers typically decode
    /// the attribute list through the conversion framework into a
    /// concrete entity and index it; this trait only requires that the
    /// dispatch be recorded.
    fn read_simple_entity(&mut self, id: i64, typed_parameter: TypedParameter)
        ensures
            final(self).recorded() == old(self).recorded().push((id, typed_parameter)),
    ;

    /// The default whole-file algorithm: propagate a grammar failure
    /// as-is, assemble the header (failing hard on an unrecognized
    /// section), then dispatch each simple instance — exactly once, in
    /// file order — and silently skip the rest, reporting only their
    /// count.
    #[verifier::loop_isolation(false)]
    fn read(&mut self, parsed: Result<ExchangeFile, String>) -> (r: Result<ReadOutcome, ReadError>)
        ensures
            (r is Ok) == (parsed matches Ok(file) && first_bad_section(file.header@) is None),
            parsed matches Err(msg) ==> r matches Err(ReadError::Parse(m)) && m == msg,
            r is Err ==> final(self).recorded() == old(self).recorded(),
            parsed matches Ok(file) ==> match r {
                Ok(outcome) => {
                    &&& final(self).recorded() == old(self).recorded() + simple_records(
                        file.data@,
                    )
                    &&& outcome.header.assembled_from(file.header@)
                    &&& outcome.skipped == skipped_count(file.data@)
                },
                Err(e) => first_bad_section(file.header@) matches Some(tp) && (if
                !recognized_section(tp.name@) {
                    e matches ReadError::UnrecognizedSection(n) && n@ == tp.name@
                } else {
                    e == ReadError::Conversion(ConversionError)
                }),
            },
    {
        let file = match parsed {
            Ok(file) => file,
            Err(msg) => {
                return Err(ReadError::Parse(msg));
            },
        };
        let header = match StepFileHeader::form_parameters(file.header) {
            Ok(header) => header,
            Err(e) => {
                return Err(e);
            },
        };
        let ghost gdata: Seq<EntityInstance> = file.data@;
        let ghost recorded0: Seq<(i64, TypedParameter)> = self.recorded();
        let mut rest = file.data;
        let mut skipped: usize = 0;
        let mut i: usize = 0;
        proof {
            assert(rest.len() <= usize::MAX);
            assert(gdata.skip(0) =~= gdata);
        }
        while rest.len() > 0
            invariant
                i + rest@.len() == gdata.len(),
                gdata.len() <= usize::MAX,
                skipped <= i,
                rest@ == gdata.skip(i as int),
                self.recorded() == recorded0 + simple_records(gdata.take(i as int)),
                skipped == skipped_count(gdata.take(i as int)),
            decreases rest@.len(),
        {
            let mut inst = rest.remove(0);
            proof {
                assert(inst == gdata[i as int]);
                lemma_dispatch_step(gdata, i as int);
            }
            if inst.value.len() == 1 {
                let tp = inst.value.remove(0);
                self.read_simple_entity(inst.id, tp);
            } else {
                skipped = skipped + 1;
            }
            i = i + 1;
        }
        proof {
            assert(gdata.take(i as int) =~= gdata);
        }
        Ok(ReadOutcome { header, skipped })
    }
}

/// Stepping the dispatch trace and the skip count by one instance.
proof fn lemma_dispatch_step(data: Seq<EntityInstance>, i: int)
    requires
        0 <= i < data.len(),
    ensures
        simple_records(data.take(i + 1)) == (if data[i].value@.len() == 1 {
            simple_records(data.take(i)).push((data[i].id, data[i].value@[0]))
        } else {
            simple_records(data.take(i))
        }),
        skipped_count(data.take(i + 1)) == skipped_count(data.take(i)) + (if data[i].value@.len()
            == 1 {
            0nat
        } else {
            1nat
        }),
{
    assert(data.take(i + 1).len() == i + 1);
    assert(data.take(i + 1).last() == data[i]);
    assert(data.take(i + 1).drop_last() =~= data.take(i));
}

/// The simplest consumer of the protocol: a reader that keeps every
/// dispatched `(id, attribute list)` pair, in file order, exactly as
/// handed over.
#[derive(Debug)]
pub struct RecordingReader {
    entities: Vec<(i64, TypedParameter)>,
}

impl RecordingReader {
    pub fn new() -> (r: RecordingReader)
        ensures
            r.recorded() == Seq::<(i64, TypedParameter)>::empty(),
    {
        RecordingReader { entities: Vec::new() }
    }

    /// Every pair dispatched so far, in order.
    pub fn entities(&self) -> (r: &Vec<(i64, TypedParameter)>)
        ensures
            r@ == self.recorded(),
    {
        &self.entities
    }
}

impl StepReader for RecordingReader {
    closed spec fn recorded(&self) -> Seq<(i64, TypedParameter)> {
        self.entities@
    }

    fn read_simple_entity(&mut self, id: i64, typed_parameter: TypedParameter) {
        self.entities.push((id, typed_parameter));
    }
}

} // verus!
