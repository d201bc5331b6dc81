//! Exporting a certificate as PEM files: the chain split into leaf, issuer
//! chain and full chain, the export folder's name, and what an export writes
//! or reports.
use vstd::prelude::*;

use crate::dns_config::text_views;
use crate::text::{cat, char_pred, chars_of, split, split_by, str_eq, string_of, trim_ws, trim_ws_chars, SplitRule};
use crate::types::{ExportBundle, ExportCertificateResponse, ExportedFile};

verus! {

/// Where and how a certificate is exported: the folder `folder_name` under
/// `destination_dir`, with or without the private key, replacing files that
/// are there only when `overwrite` is set.
pub struct ExportOptions<'a> {
    pub destination_dir: &'a str,
    pub folder_name: &'a str,
    pub include_private_key: bool,
    pub overwrite: bool,
    pub bundle: ExportBundle,
}

/// What `pem::parse_many` returns for a text, each block as its tag, its
/// contents and the text `pem::encode` writes for it (headers included):
/// `None` where it reports an error.
pub uninterp spec fn pem_blocks_of(text: Seq<char>) -> Option<Seq<(Seq<char>, Seq<u8>, Seq<char>)>>;

/// What `pem::encode` writes for a block with the given tag and contents.
pub uninterp spec fn pem_text_of(tag: Seq<char>, contents: Seq<u8>) -> Seq<char>;

pub open spec fn blocks_view(v: Seq<(String, Vec<u8>, String)>) -> Seq<(Seq<char>, Seq<u8>, Seq<char>)> {
    v.map_values(|b: (String, Vec<u8>, String)| (b.0@, b.1@, b.2@))
}

/// Calls `pem::parse_many` and keeps each block's tag, its contents and its
/// text as `pem::encode` writes it. The error message is the crate's own.
#[verifier::external_body]
pub(crate) fn pem_parse_many(text: &str) -> (r: Result<Vec<(String, Vec<u8>, String)>, String>)
    ensures
        r is Ok <==> pem_blocks_of(text@) is Some,
        r matches Ok(v) ==> blocks_view(v@) == pem_blocks_of(text@)->0,
{
    match pem::parse_many(text) {
        Ok(blocks) => Ok(blocks.iter().map(|b| (b.tag().to_string(), b.contents().to_vec(), pem::encode(b))).collect()),
        Err(err) => Err(err.to_string()),
    }
}

/// Calls `pem::encode` on a block with the given tag and contents.
#[verifier::external_body]
pub(crate) fn pem_encode(tag: &str, contents: &[u8]) -> (r: String)
    ensures
        r@ == pem_text_of(tag@, contents@),
{
    pem::encode(&pem::Pem::new(tag, contents.to_vec()))
}

/// The encoded certificate blocks among `blocks`, in order.
pub open spec fn certificate_texts(blocks: Seq<(Seq<char>, Seq<u8>, Seq<char>)>) -> Seq<Seq<char>>
    decreases blocks.len(),
{
    if blocks.len() == 0 {
        Seq::empty()
    } else {
        let prev = certificate_texts(blocks.drop_last());
        if blocks.last().0 == "CERTIFICATE"@ {
            prev.push(blocks.last().2)
        } else {
            prev
        }
    }
}

/// Whether a parsed block is a certificate.
pub open spec fn is_certificate_block(b: (Seq<char>, Seq<u8>, Seq<char>)) -> bool {
    b.0 == "CERTIFICATE"@
}

/// Every certificate block of a chain is kept, in order, and nothing else:
/// the certificate texts are the encoded texts of the blocks tagged
/// CERTIFICATE, as many as there are such blocks.
pub proof fn lemma_every_certificate_kept(blocks: Seq<(Seq<char>, Seq<u8>, Seq<char>)>)
    ensures
        certificate_texts(blocks) == blocks.filter(|b: (Seq<char>, Seq<u8>, Seq<char>)| is_certificate_block(b)).map_values(
            |b: (Seq<char>, Seq<u8>, Seq<char>)| b.2,
        ),
        certificate_texts(blocks).len() == blocks.filter(|b: (Seq<char>, Seq<u8>, Seq<char>)| is_certificate_block(b)).len(),
    decreases blocks.len(),
{
    reveal(Seq::filter);
    let pred = |b: (Seq<char>, Seq<u8>, Seq<char>)| is_certificate_block(b);
    let text = |b: (Seq<char>, Seq<u8>, Seq<char>)| b.2;
    if blocks.len() == 0 {
        assert(blocks.filter(pred).map_values(text) =~= Seq::<Seq<char>>::empty());
    } else {
        lemma_every_certificate_kept(blocks.drop_last());
        let prev = blocks.drop_last().filter(pred);
        if pred(blocks.last()) {
            assert(blocks.filter(pred) == prev.push(blocks.last()));
            assert(prev.push(blocks.last()).map_values(text) =~= prev.map_values(text).push(blocks.last().2));
        } else {
            assert(blocks.filter(pred) == prev);
        }
    }
}

/// The texts joined in order.
pub open spec fn joined(v: Seq<Seq<char>>) -> Seq<char>
    decreases v.len(),
{
    if v.len() == 0 {
        Seq::empty()
    } else {
        joined(v.drop_last()) + v.last()
    }
}

/// Splits a certificate chain into the leaf, the issuer chain and the full
/// chain, each re-encoded as PEM; other PEM blocks are left out. The chain
/// must hold at least two certificates.
pub fn split_certificate_chain(chain_pem: &str) -> (r: Result<(String, String, String), String>)
    ensures
        pem_blocks_of(chain_pem@) is None ==> (r matches Err(m) && exists|e: Seq<char>| m@
            == "failed to parse certificate chain PEM: "@ + e),
        pem_blocks_of(chain_pem@) matches Some(b) ==> {
            let certs = certificate_texts(b);
            &&& (certs.len() == 0 ==> (r matches Err(m) && m@ == "no certificate PEM blocks found"@))
            &&& (certs.len() == 1 ==> (r matches Err(m) && m@
                == "issuer chain is missing; cannot write chain.pem"@))
            &&& (certs.len() >= 2 ==> (r matches Ok(x) && x.0@ == certs[0] && x.1@ == joined(
                certs.drop_first(),
            ) && x.2@ == joined(certs) && x.2@ == x.0@ + x.1@))
        },
{
    let blocks = match pem_parse_many(chain_pem) {
        Ok(b) => b,
        Err(e) => {
            let m = cat("failed to parse certificate chain PEM: ", e.as_str());
            return Err(m);
        },
    };
    let ghost bv = blocks_view(blocks@);
    let mut certs: Vec<String> = Vec::new();
    let mut i: usize = 0;
    assert(bv.take(0) =~= Seq::<(Seq<char>, Seq<u8>, Seq<char>)>::empty());
    while i < blocks.len()
        invariant
            bv == blocks_view(blocks@),
            i <= blocks@.len(),
            text_views(certs@) == certificate_texts(bv.take(i as int)),
        decreases blocks@.len() - i,
    {
        assert(bv.take(i as int + 1).drop_last() =~= bv.take(i as int));
        assert(bv.take(i as int + 1).last() == bv[i as int]);
        let ghost before = text_views(certs@);
        if str_eq(blocks[i].0.as_str(), "CERTIFICATE") {
            certs.push(blocks[i].2.clone());
            assert(text_views(certs@) =~= before.push(bv[i as int].2));
        }
        i = i + 1;
    }
    assert(bv.take(blocks@.len() as int) =~= bv);
    let ghost cs = text_views(certs@);
    if certs.len() == 0 {
        return Err("no certificate PEM blocks found".to_string());
    }
    if certs.len() < 2 {
        return Err("issuer chain is missing; cannot write chain.pem".to_string());
    }
    let leaf = certs[0].clone();
    let mut chain_only = String::new();
    let mut k: usize = 1;
    assert(cs.drop_first().take(0) =~= Seq::<Seq<char>>::empty());
    while k < certs.len()
        invariant
            cs == text_views(certs@),
            1 <= k <= certs@.len(),
            chain_only@ == joined(cs.drop_first().take(k as int - 1)),
        decreases certs@.len() - k,
    {
        let ghost t = cs.drop_first().take(k as int);
        assert(t.drop_last() =~= cs.drop_first().take(k as int - 1));
        assert(t.last() == cs[k as int]);
        chain_only = cat(chain_only.as_str(), certs[k].as_str());
        k = k + 1;
    }
    assert(cs.drop_first().take(certs@.len() as int - 1) =~= cs.drop_first());
    proof {
        lemma_joined_front(cs);
    }
    let fullchain = cat(leaf.as_str(), chain_only.as_str());
    Ok((leaf, chain_only, fullchain))
}

/// Joining is taking the first text, then joining the rest.
pub proof fn lemma_joined_front(v: Seq<Seq<char>>)
    requires
        v.len() > 0,
    ensures
        joined(v) == v[0] + joined(v.drop_first()),
    decreases v.len(),
{
    if v.len() == 1 {
        assert(v.drop_first() =~= Seq::<Seq<char>>::empty());
        assert(v.drop_last() =~= Seq::<Seq<char>>::empty());
        assert(joined(v.drop_last()) =~= Seq::<char>::empty());
        assert(v.last() == v[0]);
        assert(joined(v) =~= v[0]);
    } else {
        lemma_joined_front(v.drop_last());
        assert(v.drop_last().drop_first() =~= v.drop_first().drop_last());
        assert(v.drop_first().last() == v.last());
        assert(v.drop_last()[0] == v[0]);
    }
}

// ---------------------------------------------------------------------------
// Folder names
// ---------------------------------------------------------------------------

/// The pieces of a path between '/' separators that name something: not
/// empty and not ".".
pub open spec fn named_pieces(pieces: Seq<Seq<char>>) -> Seq<Seq<char>>
    decreases pieces.len(),
{
    if pieces.len() == 0 {
        Seq::empty()
    } else {
        let prev = named_pieces(pieces.drop_last());
        let p = pieces.last();
        if p.len() == 0 || p == "."@ {
            prev
        } else {
            prev.push(p)
        }
    }
}

/// A name is one ordinary path segment (Unix path rules): it does not start
/// at the root or with ".", and exactly one piece names something, which is
/// not "..".
pub open spec fn single_segment(name: Seq<char>) -> bool {
    let pieces = split_by(name, char_pred('/'));
    let named = named_pieces(pieces);
    &&& !(name.len() > 0 && name[0] == '/')
    &&& pieces[0] != "."@
    &&& named.len() == 1
    &&& named[0] != ".."@
}

/// An export folder name must not be blank and must be a single path
/// segment.
pub fn validate_folder_name(name: &str) -> (r: Result<(), String>)
    ensures
        trim_ws(name@).len() == 0 ==> (r matches Err(m) && m@ == "folder name cannot be empty"@),
        trim_ws(name@).len() > 0 ==> (r is Ok <==> single_segment(name@)),
        trim_ws(name@).len() > 0 && !single_segment(name@) ==> (r matches Err(m) && m@
            == "folder name must be a single path segment"@),
{
    proof {
        reveal_strlit(".");
        reveal_strlit("..");
    }
    let v = chars_of(name);
    if trim_ws_chars(&v).len() == 0 {
        return Err("folder name cannot be empty".to_string());
    }
    let pieces = split(&v, SplitRule::Char('/'));
    let ghost ps = split_by(v@, char_pred('/'));
    proof {
        crate::text::lemma_split_nonempty(v@, char_pred('/'));
    }
    let mut named: Vec<Vec<char>> = Vec::new();
    let mut i: usize = 0;
    assert(ps.take(0) =~= Seq::<Seq<char>>::empty());
    while i < pieces.len()
        invariant
            pieces@.len() == ps.len(),
            forall|k: int| 0 <= k < pieces@.len() ==> #[trigger] pieces@[k]@ == ps[k],
            i <= pieces@.len(),
            named@.len() == named_pieces(ps.take(i as int)).len(),
            forall|k: int| 0 <= k < named@.len() ==> #[trigger] named@[k]@ == named_pieces(ps.take(i as int))[k],
        decreases pieces@.len() - i,
    {
        assert(ps.take(i as int + 1).drop_last() =~= ps.take(i as int));
        assert(ps.take(i as int + 1).last() == ps[i as int]);
        let p = &pieces[i];
        let is_dot = p.len() == 1 && p[0] == '.';
        proof {
            reveal_strlit(".");
            assert(is_dot == (p@ == "."@)) by {
                if p@ == "."@ {
                    assert(p@.len() == 1);
                }
                if is_dot {
                    assert(p@ =~= "."@);
                }
            }
        }
        if !(p.len() == 0 || is_dot) {
            named.push(p.clone());
        }
        i = i + 1;
    }
    assert(ps.take(pieces@.len() as int) =~= ps);
    let starts_at_root = v.len() > 0 && v[0] == '/';
    let first = &pieces[0];
    let first_is_dot = first.len() == 1 && first[0] == '.';
    proof {
        assert(first_is_dot == (ps[0] == "."@)) by {
            if ps[0] == "."@ {
                assert(ps[0].len() == 1);
            }
            if first_is_dot {
                assert(first@ =~= "."@);
            }
        }
    }
    let ok = if !starts_at_root && !first_is_dot && named.len() == 1 {
        let n = &named[0];
        let is_dotdot = n.len() == 2 && n[0] == '.' && n[1] == '.';
        proof {
            assert(is_dotdot == (n@ == ".."@)) by {
                if n@ == ".."@ {
                    assert(n@.len() == 2);
                }
                if is_dotdot {
                    assert(n@ =~= ".."@);
                }
            }
        }
        !is_dotdot
    } else {
        false
    };
    if ok {
        Ok(())
    } else {
        Err("folder name must be a single path segment".to_string())
    }
}

// ---------------------------------------------------------------------------
// Export decisions
// ---------------------------------------------------------------------------

/// The files of an export, as (label, file name): cert, chain and fullchain,
/// then the private key where it is included.
pub open spec fn spec_export_files(include_private_key: bool) -> Seq<(Seq<char>, Seq<char>)> {
    let base = seq![("cert"@, "cert.pem"@), ("chain"@, "chain.pem"@), ("fullchain"@, "fullchain.pem"@)];
    if include_private_key {
        base.push(("privkey"@, "privkey.pem"@))
    } else {
        base
    }
}

pub open spec fn pairs_view(v: Seq<(String, String)>) -> Seq<(Seq<char>, Seq<char>)> {
    v.map_values(|p: (String, String)| (p.0@, p.1@))
}

/// The files an export writes, as (label, file name).
pub fn export_files(include_private_key: bool) -> (r: Vec<(String, String)>)
    ensures
        pairs_view(r@) == spec_export_files(include_private_key),
{
    let mut v: Vec<(String, String)> = Vec::new();
    v.push(("cert".to_string(), "cert.pem".to_string()));
    v.push(("chain".to_string(), "chain.pem".to_string()));
    v.push(("fullchain".to_string(), "fullchain.pem".to_string()));
    if include_private_key {
        v.push(("privkey".to_string(), "privkey.pem".to_string()));
    }
    assert(pairs_view(v@) =~= spec_export_files(include_private_key));
    v
}

/// The key material of an export: needed, and then present, only where the
/// private key is included.
pub fn export_key_material(include_private_key: bool, private_key_pem: Option<String>) -> (r: Result<
    Option<String>,
    String,
>)
    ensures
        !include_private_key ==> r matches Ok(None),
        include_private_key && private_key_pem is Some ==> r == Ok::<Option<String>, String>(
            private_key_pem,
        ),
        include_private_key && private_key_pem is None ==> (r matches Err(m) && m@
            == "private key export requested but no key material was provided"@),
{
    if !include_private_key {
        return Ok(None);
    }
    match private_key_pem {
        Some(k) => Ok(Some(k)),
        None => Err("private key export requested but no key material was provided".to_string()),
    }
}

/// Whether an export may write: where some target files exist already and
/// overwriting was not asked for, it reports them instead.
pub fn export_preflight(output_dir: String, existing_files: Vec<String>, overwrite: bool) -> (r: Option<
    ExportCertificateResponse,
>)
    ensures
        (existing_files@.len() > 0 && !overwrite) ==> (r matches Some(
            ExportCertificateResponse::OverwriteRequired { output_dir: d, existing_files: e },
        ) && d == output_dir && e@ == existing_files@),
        !(existing_files@.len() > 0 && !overwrite) ==> r is None,
{
    if existing_files.len() > 0 && !overwrite {
        Some(ExportCertificateResponse::OverwriteRequired { output_dir, existing_files })
    } else {
        None
    }
}

/// The report of a finished export: each written file with its label.
pub fn export_success(output_dir: String, files: Vec<(String, String)>) -> (r: ExportCertificateResponse)
    ensures
        r matches ExportCertificateResponse::Success { output_dir: d, files: f } && d == output_dir
            && f@.len() == files@.len() && forall|i: int|
            0 <= i < f@.len() ==> (#[trigger] f@[i]).label == files@[i].0 && f@[i].path == files@[i].1,
{
    let mut out: Vec<ExportedFile> = Vec::new();
    let mut i: usize = 0;
    let n = files.len();
    let mut rest = files;
    let ghost all = rest@;
    while i < n
        invariant
            n == all.len(),
            i <= n,
            rest@ == all,
            out@.len() == i,
            forall|k: int| 0 <= k < i ==> (#[trigger] out@[k]).label == all[k].0 && out@[k].path == all[k].1,
        decreases n - i,
    {
        let label = rest[i].0.clone();
        let path = rest[i].1.clone();
        out.push(ExportedFile { label, path });
        i = i + 1;
    }
    ExportCertificateResponse::Success { output_dir, files: out }
}

} // verus!
