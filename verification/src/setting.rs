//! The settings of the program: where it listens and where its services are.

use vstd::prelude::*;
use vstd::arithmetic::div_mod::{lemma_fundamental_div_mod_converse, lemma_mod_bound, lemma_fundamental_div_mod};

verus! {

/// The settings of the program.
#[derive(Debug, Clone)]
pub struct Setting {
    pub server: Server,
    pub vector_db: VectorDb,
    pub llm: LLM,
    pub mongodb: MongoDB,
}

/// Where the conversation log is.
#[derive(Debug, Clone)]
pub struct MongoDB {
    pub uri: String,
}

/// Where the vector store is.
#[derive(Debug, Clone)]
pub struct VectorDb {
    pub host: String,
    pub port: u16,
}

/// How the program listens.
#[derive(Debug, Clone)]
pub struct Server {
    pub port: u16,
    pub timeout: u32,
    pub max_payload: u64,
    pub max_buffer_size: usize,
}

/// The generator's model.
#[derive(Debug, Clone)]
pub struct LLM {
    pub model: String,
}

/// The values of a settings file, as they are read from it: whole numbers
/// are 64-bit and signed.
#[derive(Debug, Clone)]
pub struct SettingValues {
    pub server_port: i64,
    pub server_timeout: i64,
    pub server_max_payload: i64,
    pub server_max_buffer_size: i64,
    pub vector_db_host: String,
    pub vector_db_port: i64,
    pub llm_model: String,
    pub mongodb_uri: String,
}

/// `value` reduced modulo `modulus`: the number from zero up to, but not
/// reaching, `modulus` that differs from `value` by a multiple of `modulus`.
pub open spec fn reduced(value: int, modulus: int) -> int {
    value % modulus
}

/// `value` reduced modulo `modulus`.
fn reduce(value: i64, modulus: u64) -> (r: u64)
    requires
        0 < modulus <= 0x8000_0000_0000_0000,
    ensures
        r == reduced(value as int, modulus as int),
        r < modulus,
{
    proof {
        lemma_mod_bound(value as int, modulus as int);
    }
    if value >= 0 {
        (value as u64) % modulus
    } else {
        let below: u64 = (-(value + 1)) as u64;
        let rest: u64 = below % modulus;
        proof {
            let m = modulus as int;
            let q = (below as int) / m;
            lemma_fundamental_div_mod(below as int, m);
            lemma_mod_bound(below as int, m);
            assert(m * q == q * m) by (nonlinear_arith);
            assert((-q - 1) * m == -(q * m) - m) by (nonlinear_arith);
            lemma_fundamental_div_mod_converse(value as int, m, -q - 1, m - 1 - rest);
        }
        modulus - 1 - rest
    }
}

impl Setting {
    /// The settings that a file's values stand for. A number that its field
    /// cannot hold is reduced to the field's width: only its low bits count.
    pub fn new(values: SettingValues) -> (setting: Setting)
        ensures
            setting.server.port == reduced(values.server_port as int, 0x1_0000),
            setting.server.timeout == reduced(values.server_timeout as int, 0x1_0000_0000),
            setting.server.max_payload == reduced(
                values.server_max_payload as int,
                0x1_0000_0000_0000_0000,
            ),
            setting.server.max_buffer_size == reduced(
                values.server_max_buffer_size as int,
                usize::MAX + 1,
            ),
            setting.vector_db.host == values.vector_db_host,
            setting.vector_db.port == reduced(values.vector_db_port as int, 0x1_0000),
            setting.llm.model == values.llm_model,
            setting.mongodb.uri == values.mongodb_uri,
    {
        let max_payload: u64 = if values.server_max_payload >= 0 {
            values.server_max_payload as u64
        } else {
            let below: u64 = (-(values.server_max_payload + 1)) as u64;
            u64::MAX - below
        };
        let max_buffer_size: usize = if values.server_max_buffer_size >= 0 {
            let wide: u64 = values.server_max_buffer_size as u64;
            if wide <= usize::MAX as u64 {
                wide as usize
            } else {
                reduce(values.server_max_buffer_size, usize::MAX as u64 + 1) as usize
            }
        } else if usize::MAX as u64 == u64::MAX {
            let below: u64 = (-(values.server_max_buffer_size + 1)) as u64;
            (u64::MAX - below) as usize
        } else {
            reduce(values.server_max_buffer_size, usize::MAX as u64 + 1) as usize
        };
        proof {
            let v = values.server_max_payload as int;
            let m = 0x1_0000_0000_0000_0000int;
            if v >= 0 {
                lemma_fundamental_div_mod_converse(v, m, 0, v);
            } else {
                lemma_fundamental_div_mod_converse(v, m, -1, v + m);
            }
            let b = values.server_max_buffer_size as int;
            let w = usize::MAX + 1;
            if b >= 0 && b <= usize::MAX {
                lemma_fundamental_div_mod_converse(b, w, 0, b);
            } else if b < 0 && usize::MAX == u64::MAX {
                lemma_fundamental_div_mod_converse(b, w, -1, b + w);
            }
        }
        Setting {
            server: Server {
                port: reduce(values.server_port, 0x1_0000) as u16,
                timeout: reduce(values.server_timeout, 0x1_0000_0000) as u32,
                max_payload,
                max_buffer_size,
            },
            vector_db: VectorDb {
                host: values.vector_db_host,
                port: reduce(values.vector_db_port, 0x1_0000) as u16,
            },
            llm: LLM { model: values.llm_model },
            mongodb: MongoDB { uri: values.mongodb_uri },
        }
    }
}

} // verus!
