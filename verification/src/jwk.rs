//! JSON Web Keys.
use crate::text::same_text;
use vstd::prelude::*;

verus! {

/// The value of a parameter of a JWK.
#[derive(Debug)]
pub enum JwkValue {
    /// A string.
    Text(String),
    /// Anything else.
    Other,
}

impl View for JwkValue {
    type V = Option<Seq<char>>;

    open spec fn view(&self) -> Option<Seq<char>> {
        match *self {
            JwkValue::Text(text) => Some(text@),
            JwkValue::Other => None,
        }
    }
}

#[derive(Debug)]
struct JwkParameter {
    name: String,
    value: JwkValue,
}

/// What a JWK says.
pub struct JwkModel {
    /// The parameter `kty`.
    pub key_type: Seq<char>,
    /// The parameter `use`.
    pub key_use: Option<Seq<char>>,
    /// The parameter `key_ops`.
    pub key_operations: Option<Seq<Seq<char>>>,
    /// The parameter `alg`.
    pub algorithm: Option<Seq<char>>,
    /// The parameter `kid`.
    pub key_id: Option<Seq<char>>,
    /// The parameters of the key itself by name, each with its text where it is a string.
    pub parameters: Map<Seq<char>, Option<Seq<char>>>,
}

/// An optional text in mathematical terms.
pub open spec fn optional_text(text: Option<String>) -> Option<Seq<char>> {
    match text {
        Some(text) => Some(text@),
        None => None,
    }
}

/// Texts in mathematical terms.
pub open spec fn texts(list: Seq<String>) -> Seq<Seq<char>> {
    list.map_values(|text: String| text@)
}

/// A JSON Web Key, with what is read of it.
#[derive(Debug)]
pub struct Jwk {
    key_type: String,
    key_use: Option<String>,
    key_operations: Option<Vec<String>>,
    algorithm: Option<String>,
    key_id: Option<String>,
    parameters: Vec<JwkParameter>,
}

spec fn parameter_map(parameters: Seq<JwkParameter>) -> Map<Seq<char>, Option<Seq<char>>>
    decreases parameters.len(),
{
    if parameters.len() == 0 {
        Map::empty()
    } else {
        parameter_map(parameters.drop_last()).insert(
            parameters.last().name@,
            parameters.last().value@,
        )
    }
}

impl View for Jwk {
    type V = JwkModel;

    closed spec fn view(&self) -> JwkModel {
        JwkModel {
            key_type: self.key_type@,
            key_use: optional_text(self.key_use),
            key_operations: match self.key_operations {
                Some(operations) => Some(texts(operations@)),
                None => None,
            },
            algorithm: optional_text(self.algorithm),
            key_id: optional_text(self.key_id),
            parameters: parameter_map(self.parameters@),
        }
    }
}

fn text_of(text: &Option<String>) -> (found: Option<&str>)
    ensures
        match found {
            Some(found) => optional_text(*text) == Some(found@),
            None => text is None,
        },
{
    match text {
        Some(text) => Some(text.as_str()),
        None => None,
    }
}

impl Jwk {
    /// A JWK of the given key type, with nothing else in it.
    pub fn new(key_type: &str) -> (jwk: Jwk)
        ensures
            jwk@ == (JwkModel {
                key_type: key_type@,
                key_use: None,
                key_operations: None,
                algorithm: None,
                key_id: None,
                parameters: Map::empty(),
            }),
    {
        Jwk {
            key_type: key_type.to_owned(),
            key_use: None,
            key_operations: None,
            algorithm: None,
            key_id: None,
            parameters: Vec::new(),
        }
    }

    /// Sets the parameter `use`.
    pub fn set_key_use(&mut self, key_use: &str)
        ensures
            final(self)@ == (JwkModel { key_use: Some(key_use@), ..old(self)@ }),
    {
        self.key_use = Some(key_use.to_owned());
    }

    /// Sets the parameter `key_ops`.
    pub fn set_key_operations(&mut self, key_operations: Vec<String>)
        ensures
            final(self)@ == (JwkModel {
                key_operations: Some(texts(key_operations@)),
                ..old(self)@
            }),
    {
        self.key_operations = Some(key_operations);
    }

    /// Sets the parameter `alg`.
    pub fn set_algorithm(&mut self, algorithm: &str)
        ensures
            final(self)@ == (JwkModel { algorithm: Some(algorithm@), ..old(self)@ }),
    {
        self.algorithm = Some(algorithm.to_owned());
    }

    /// Sets the parameter `kid`.
    pub fn set_key_id(&mut self, key_id: &str)
        ensures
            final(self)@ == (JwkModel { key_id: Some(key_id@), ..old(self)@ }),
    {
        self.key_id = Some(key_id.to_owned());
    }

    /// Sets a parameter of the key itself.
    pub fn set_parameter(&mut self, name: &str, value: JwkValue)
        ensures
            final(self)@ == (JwkModel {
                parameters: old(self)@.parameters.insert(name@, value@),
                ..old(self)@
            }),
    {
        let ghost before = self.parameters@;
        self.parameters.push(JwkParameter { name: name.to_owned(), value });
        assert(self.parameters@.drop_last() == before);
    }

    /// The parameter `kty`.
    pub fn key_type(&self) -> (key_type: &str)
        ensures
            key_type@ == self@.key_type,
    {
        self.key_type.as_str()
    }

    /// The parameter `use`.
    pub fn key_use(&self) -> (key_use: Option<&str>)
        ensures
            match key_use {
                Some(key_use) => self@.key_use == Some(key_use@),
                None => self@.key_use is None,
            },
    {
        text_of(&self.key_use)
    }

    /// The parameter `key_ops`.
    pub fn key_operations(&self) -> (key_operations: Option<&Vec<String>>)
        ensures
            match key_operations {
                Some(operations) => self@.key_operations == Some(texts(operations@)),
                None => self@.key_operations is None,
            },
    {
        match &self.key_operations {
            Some(operations) => Some(operations),
            None => None,
        }
    }

    /// The parameter `alg`.
    pub fn algorithm(&self) -> (algorithm: Option<&str>)
        ensures
            match algorithm {
                Some(algorithm) => self@.algorithm == Some(algorithm@),
                None => self@.algorithm is None,
            },
    {
        text_of(&self.algorithm)
    }

    /// The parameter `kid`.
    pub fn key_id(&self) -> (key_id: Option<&str>)
        ensures
            match key_id {
                Some(key_id) => self@.key_id == Some(key_id@),
                None => self@.key_id is None,
            },
    {
        text_of(&self.key_id)
    }

    /// A parameter of the key itself.
    pub fn parameter(&self, name: &str) -> (value: Option<&JwkValue>)
        ensures
            match value {
                Some(value) => self@.parameters.contains_pair(name@, value@),
                None => !self@.parameters.contains_key(name@),
            },
    {
        let mut i: usize = self.parameters.len();
        assert(self.parameters@.take(i as int) == self.parameters@);
        while i > 0
            invariant
                i <= self.parameters@.len(),
                parameter_map(self.parameters@.take(i as int)).contains_key(name@)
                    <==> self@.parameters.contains_key(name@),
                parameter_map(self.parameters@.take(i as int))[name@]
                    == self@.parameters[name@],
            decreases i,
        {
            let ghost upto = self.parameters@.take(i as int);
            assert(upto.drop_last() == self.parameters@.take(i - 1));
            let parameter = &self.parameters[i - 1];
            if same_text(parameter.name.as_str(), name) {
                return Some(&parameter.value);
            }
            i = i - 1;
        }
        None
    }
}

} // verus!
