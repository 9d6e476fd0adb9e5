//! How the account password becomes the master password of the keyring.
//!
//! What travels to the daemon is the result of a derivation, never the password
//! of the account: whoever intercepts it takes the master of the keyring and
//! nothing else. Both ways of delivering it go through here, so they cannot
//! drift apart.
use vstd::prelude::*;
use vstd::string::*;
use vstd::utf8::*;

use crate::primitivas::{borrar_bytes, hash_argon2id};
use crate::secreto::Secreto;
use crate::texto::{fin_sin_cola, inicio_sin_cabeza, letras, texto_de, unir};

verus! {

/// Label of the scheme.
pub const ESQUEMA: &'static str = "vasak-keyring:v1:";

/// Length of the derived master, in bytes, before it goes to hexadecimal.
pub const LARGO: usize = 32;

/// Memory for Argon2id, in KiB.
pub const MEMORIA_KIB: u32 = 19456;

/// Passes of Argon2id over that memory.
pub const PASADAS: u32 = 2;

/// Lanes of Argon2id.
pub const CARRILES: u32 = 1;

/// The SHA-256 of some bytes.
pub uninterp spec fn sha256(b: Seq<u8>) -> Seq<u8>;

/// `Digest::digest` of `sha2::Sha256`: a digest of 32 bytes, which the bytes
/// alone decide.
#[verifier::external_body]
fn resumen_sha256(b: &[u8]) -> (r: Vec<u8>)
    ensures
        r@ == sha256(b@),
        r@.len() == 32,
{
    <sha2::Sha256 as sha2::Digest>::digest(b).to_vec()
}

/// The salt for an identifier: the digest of the scheme's label followed by it.
pub open spec fn sal_de(identificador: Seq<char>) -> Seq<u8> {
    sha256(encode_utf8(ESQUEMA@) + encode_utf8(identificador))
}

/// The salt for a given identifier.
pub fn sal_desde(identificador: &str) -> (r: Vec<u8>)
    ensures
        r@ == sal_de(identificador@),
        r@.len() == 32,
{
    let mut b: Vec<u8> = Vec::new();
    b.extend_from_slice(ESQUEMA.as_bytes());
    b.extend_from_slice(identificador.as_bytes());
    assert(b@ =~= encode_utf8(ESQUEMA@) + encode_utf8(identificador@));
    resumen_sha256(b.as_slice())
}

/// The identifier that a machine's file holds: its text without the white space
/// around it, or nothing where the file could not be read.
pub open spec fn identificador_de(machine_id: Option<Seq<char>>) -> Seq<char> {
    match machine_id {
        Some(s) => crate::texto::recortado(s),
        None => Seq::empty(),
    }
}

/// The salt of a machine, from what its identifier file holds. Where the file
/// could not be read, only the label of the scheme goes into the salt: worse,
/// but the keyring opens.
pub fn sal(machine_id: Option<&str>) -> (r: Vec<u8>)
    ensures
        r@ == sal_de_maquina(machine_id),
        r@.len() == 32,
{
    match machine_id {
        Some(s) => {
            let v: Vec<char> = letras(s);
            let a: usize = inicio_sin_cabeza(&v, 0, v.len());
            let b: usize = fin_sin_cola(&v, a, v.len());
            assert(v@.subrange(0, v@.len() as int) =~= v@);
            sal_desde(texto_de(&v, a, b).as_str())
        },
        None => {
            proof {
                reveal_strlit("");
                assert(""@ =~= Seq::<char>::empty());
            }
            sal_desde("")
        },
    }
}

/// A hexadecimal digit, in lower case.
pub open spec fn digito_hexa(d: u8) -> char {
    if d < 10 {
        (48 + d) as char
    } else {
        (87 + d) as char
    }
}

/// Some bytes in hexadecimal, two digits each.
pub open spec fn hexadecimal(b: Seq<u8>) -> Seq<char>
    decreases b.len(),
{
    if b.len() == 0 {
        Seq::empty()
    } else {
        hexadecimal(b.drop_last()) + seq![digito_hexa(b.last() / 16), digito_hexa(b.last() % 16)]
    }
}

proof fn largo_del_hexadecimal(b: Seq<u8>)
    ensures
        hexadecimal(b).len() == 2 * b.len(),
    decreases b.len(),
{
    if b.len() > 0 {
        largo_del_hexadecimal(b.drop_last());
    }
}

/// Different bytes give different digits: no two results of the hash are
/// written alike.
pub proof fn hexadecimal_es_inyectivo(a: Seq<u8>, b: Seq<u8>)
    requires
        hexadecimal(a) == hexadecimal(b),
    ensures
        a == b,
    decreases a.len(),
{
    let x = hexadecimal(a);
    let y = hexadecimal(b);
    largo_del_hexadecimal(a);
    largo_del_hexadecimal(b);
    if a.len() > 0 {
        let n = x.len() as int;
        largo_del_hexadecimal(a.drop_last());
        largo_del_hexadecimal(b.drop_last());
        assert(x.take(n - 2) =~= hexadecimal(a.drop_last()));
        assert(y.take(n - 2) =~= hexadecimal(b.drop_last()));
        hexadecimal_es_inyectivo(a.drop_last(), b.drop_last());
        assert(x[n - 2] == digito_hexa(a.last() / 16));
        assert(y[n - 2] == digito_hexa(b.last() / 16));
        assert(x[n - 1] == digito_hexa(a.last() % 16));
        assert(y[n - 1] == digito_hexa(b.last() % 16));
        assert(a.last() == b.last());
        assert(a =~= a.drop_last().push(a.last()));
        assert(b =~= b.drop_last().push(b.last()));
    } else {
        assert(a =~= b);
    }
}

/// Hexadecimal text is made of lower-case hexadecimal digits.
pub proof fn hexadecimal_son_digitos(b: Seq<u8>)
    ensures
        forall|i: int| 0 <= i < hexadecimal(b).len() ==> es_hexa(#[trigger] hexadecimal(b)[i]),
    decreases b.len(),
{
    if b.len() > 0 {
        hexadecimal_son_digitos(b.drop_last());
        assert(b.last() / 16 < 16);
        assert(es_hexa(digito_hexa(b.last() / 16)));
        assert(es_hexa(digito_hexa(b.last() % 16)));
        assert forall|i: int| 0 <= i < hexadecimal(b).len() implies es_hexa(#[trigger] hexadecimal(b)[i]) by {
            let n = hexadecimal(b.drop_last()).len();
            if i < n {
                assert(hexadecimal(b)[i] == hexadecimal(b.drop_last())[i]);
            }
        }
    }
}

/// A lower-case hexadecimal digit.
pub open spec fn es_hexa(c: char) -> bool {
    '0' <= c <= '9' || 'a' <= c <= 'f'
}

fn letra_hexa(d: u8) -> (c: char)
    requires
        d < 16,
    ensures
        c == digito_hexa(d),
{
    if d < 10 {
        (48 + d) as char
    } else {
        (87 + d) as char
    }
}

fn en_hexadecimal(b: &Vec<u8>) -> (s: String)
    ensures
        s@ == hexadecimal(b@),
{
    let mut s: String = String::new();
    let mut i: usize = 0;
    while i < b.len()
        invariant
            i <= b@.len(),
            s@ == hexadecimal(b@.take(i as int)),
        decreases b.len() - i,
    {
        s.push(letra_hexa(b[i] / 16));
        s.push(letra_hexa(b[i] % 16));
        i += 1;
        proof {
            let t = b@.take(i as int);
            assert(t.drop_last() =~= b@.take(i - 1));
            assert(t.last() == b@[i - 1]);
            assert(s@ =~= hexadecimal(t));
        }
    }
    assert(b@.take(b@.len() as int) =~= b@);
    s
}

/// The master that a password and a salt give, or why they give none.
pub open spec fn maestra_de(password: Seq<char>, sal: Seq<u8>) -> Result<Seq<char>, Seq<char>> {
    match crate::primitivas::rechazo_de_argon2(encode_utf8(password), sal) {
        Some(motivo) => Err("no se pudo derivar la contraseña maestra: "@ + motivo),
        None => Ok(
            hexadecimal(crate::primitivas::argon2id(encode_utf8(password), sal, MEMORIA_KIB, PASADAS, CARRILES, LARGO)),
        ),
    }
}

/// Derives the master password with the salt given: Argon2id, and the result in
/// hexadecimal, because it travels as text. What comes out is 64 hexadecimal
/// digits, whatever the password holds.
pub fn derivar_con_sal(password: &str, sal: &[u8]) -> (r: Result<Secreto, String>)
    ensures
        match r {
            Ok(m) => maestra_de(password@, sal@) == Ok::<Seq<char>, Seq<char>>(m@) && m@.len() == 2 * LARGO
                && forall|i: int| 0 <= i < m@.len() ==> es_hexa(#[trigger] m@[i]),
            Err(e) => maestra_de(password@, sal@) == Err::<Seq<char>, Seq<char>>(e@),
        },
{
    match hash_argon2id(password.as_bytes(), sal, MEMORIA_KIB, PASADAS, CARRILES, LARGO) {
        Ok(mut salida) => {
            proof {
                largo_del_hexadecimal(salida@);
                hexadecimal_son_digitos(salida@);
            }
            let texto: String = en_hexadecimal(&salida);
            borrar_bytes(&mut salida);
            Ok(Secreto::new(texto))
        },
        Err(e) => Err(unir("no se pudo derivar la contraseña maestra: ", e.as_str())),
    }
}

/// The salt of a machine, from what its identifier file holds.
pub open spec fn sal_de_maquina(machine_id: Option<&str>) -> Seq<u8> {
    sal_de(
        identificador_de(
            match machine_id {
                Some(s) => Some(s@),
                None => None,
            },
        ),
    )
}

/// Derives the master password of a machine, from what its identifier file
/// holds. It fails only on a password of over 0xFFFFFFFF bytes.
pub fn derivar_maestra(password: &str, machine_id: Option<&str>) -> (r: Result<Secreto, String>)
    ensures
        match r {
            Ok(m) => maestra_de(password@, sal_de_maquina(machine_id)) == Ok::<Seq<char>, Seq<char>>(m@)
                && m@.len() == 2 * LARGO,
            Err(e) => maestra_de(password@, sal_de_maquina(machine_id)) == Err::<Seq<char>, Seq<char>>(e@)
                && e@ == "no se pudo derivar la contraseña maestra: "@ + "password is too long"@,
        },
        r is Ok <==> encode_utf8(password@).len() <= 0xFFFF_FFFF,
{
    let sal: Vec<u8> = sal(machine_id);
    derivar_con_sal(password, sal.as_slice())
}

/// Each byte is written at its place, the high half first: the text reads back as
/// the bytes.
pub proof fn hexadecimal_escribe_los_bytes(b: Seq<u8>, i: int)
    requires
        0 <= i < b.len(),
    ensures
        hexadecimal(b).len() == 2 * b.len(),
        ({
            let alto = hexadecimal(b)[2 * i] as int;
            let bajo = hexadecimal(b)[2 * i + 1] as int;
            let valor = |c: int|
                if c <= 57 {
                    c - 48
                } else {
                    c - 87
                };
            b[i] == 16 * valor(alto) + valor(bajo)
        }),
    decreases b.len(),
{
    largo_del_hexadecimal(b);
    largo_del_hexadecimal(b.drop_last());
    if i < b.len() - 1 {
        hexadecimal_escribe_los_bytes(b.drop_last(), i);
        assert(hexadecimal(b)[2 * i] == hexadecimal(b.drop_last())[2 * i]);
        assert(hexadecimal(b)[2 * i + 1] == hexadecimal(b.drop_last())[2 * i + 1]);
    } else {
        let x = b.last();
        assert(x / 16 < 16 && x % 16 < 16);
        assert(hexadecimal(b)[2 * i] == digito_hexa(x / 16));
        assert(hexadecimal(b)[2 * i + 1] == digito_hexa(x % 16));
    }
}

/// White space around the identifier of a machine does not count: a line break at
/// the end of its file gives the same salt, and a file that could not be read the
/// one of an empty identifier.
pub proof fn el_identificador_se_recorta(id: Seq<char>, alrededor: Seq<char>)
    requires
        id.len() > 0 ==> !crate::texto::es_blanco(id[0]) && !crate::texto::es_blanco(id.last()),
        forall|i: int| 0 <= i < alrededor.len() ==> crate::texto::es_blanco(#[trigger] alrededor[i]),
    ensures
        identificador_de(Some(id)) == id,
        id.len() > 0 ==> identificador_de(Some(id + alrededor)) == id,
        identificador_de(None) == Seq::<char>::empty(),
    decreases alrededor.len(),
{
    crate::texto::lo_recortado_queda(id);
    if id.len() > 0 && alrededor.len() > 0 {
        let s = id + alrededor;
        assert(s[0] == id[0]);
        assert(s.last() == alrededor.last());
        assert(alrededor.last() == alrededor[alrededor.len() - 1]);
        assert(s.drop_last() =~= id + alrededor.drop_last());
        assert forall|i: int| 0 <= i < alrededor.drop_last().len() implies crate::texto::es_blanco(
            #[trigger] alrededor.drop_last()[i],
        ) by {
            assert(alrededor.drop_last()[i] == alrededor[i]);
        }
        el_identificador_se_recorta(id, alrededor.drop_last());
        assert(crate::texto::sin_cabeza(s) == s);
        assert(crate::texto::sin_cabeza(s.drop_last()) == s.drop_last());
    } else if id.len() > 0 {
        assert(id + alrededor =~= id);
    }
}

/// The master password is the Argon2id of the account password, with the salt of
/// the machine and fixed parameters: the same password on the same machine gives
/// the same master, and the salt is the digest of the label of the scheme and the
/// identifier of the machine.
pub proof fn la_maestra_depende_de_la_contrasena_y_la_maquina(
    password: Seq<char>,
    id: Seq<char>,
    sal: Seq<u8>,
)
    ensures
        maestra_de(password, sal) is Ok <==> encode_utf8(password).len() <= 0xFFFF_FFFF && 8 <= sal.len()
            <= 0xFFFF_FFFF,
        maestra_de(password, sal) matches Ok(m) ==> m == hexadecimal(
            crate::primitivas::argon2id(encode_utf8(password), sal, 19456, 2, 1, 32),
        ),
        sal_de(id) == sha256(encode_utf8("vasak-keyring:v1:"@) + encode_utf8(id)),
{
}

} // verus!
