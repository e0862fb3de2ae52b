//! The parts of talking to a Keenetic router that decide something: where a
//! request goes, how the login challenge is answered, which commands
//! restart the PPPoE interface and what the caller is told.
use vstd::prelude::*;
use vstd::string::{StringExecFns, StringSliceAdditionalSpecFns};
use crate::digest::{md5_digest, md5_of, sha256_digest, sha256_of};
use crate::text::{hex_digits, hex_text, push_hex, same_text};

verus! {

/// `reqwest::Error`, the error of creating an HTTP client.
#[verifier::external_type_specification]
#[verifier::external_body]
pub struct ExReqwestError(reqwest::Error);

/// A router, found by its address.
pub struct KeenClient {
    pub ip_addr: String,
}

/// What the login form posts: the login and the answer to the challenge.
pub struct AuthPayload {
    pub login: String,
    pub password: String,
}

/// The next step of a login after the router answered `GET /auth`.
pub enum AuthStep {
    /// The login is over: whether the session is authorised.
    Done(bool),
    /// The router asked for the challenge to be answered: post the payload,
    /// once, to the URL (the router's `auth` endpoint); the login is then
    /// over, authorised as `auth_accepted` says of the answer's status.
    Respond(String, AuthPayload),
}

/// The ASCII code of `:`.
pub open spec fn colon() -> Seq<u8> {
    seq![58u8]
}

/// What the router's realm hash is taken of: `login:realm:password`.
pub open spec fn md5_input(login: Seq<u8>, realm: Seq<u8>, password: Seq<u8>) -> Seq<u8> {
    login + colon() + realm + colon() + password
}

/// The answer to the router's challenge: the lowercase hexadecimal SHA-256
/// of the challenge followed by the lowercase hexadecimal MD5 of
/// `login:realm:password`.
pub open spec fn challenge_answer(login: Seq<u8>, realm: Seq<u8>, password: Seq<u8>, challenge: Seq<u8>) -> Seq<char> {
    hex_text(sha256_of(challenge + hex_digits(md5_of(md5_input(login, realm, password)))))
}

/// The URL of `endpoint` on the router at `ip_addr`.
pub open spec fn endpoint_url(ip_addr: Seq<char>, endpoint: Seq<char>) -> Seq<char> {
    "http://"@ + ip_addr + "/"@ + endpoint
}

/// Every request goes to the router it is made for: the URL is `http://`,
/// then the router's address as given, then `/` and the endpoint; so two
/// routers, or two endpoints, never share a URL.
pub proof fn law_endpoint_url(ip_addr: Seq<char>, other_ip: Seq<char>, endpoint: Seq<char>, other_endpoint: Seq<char>)
    ensures
        endpoint_url(ip_addr, endpoint).len() == 8 + (ip_addr.len() as int) + (endpoint.len() as int),
        endpoint_url(ip_addr, endpoint).subrange(0, 7) == "http://"@,
        endpoint_url(ip_addr, endpoint).subrange(7, 7 + (ip_addr.len() as int)) == ip_addr,
        endpoint_url(ip_addr, endpoint)[7 + (ip_addr.len() as int)] == '/',
        endpoint_url(ip_addr, endpoint).subrange(8 + (ip_addr.len() as int), 8 + (ip_addr.len() as int) + (endpoint.len() as int)) == endpoint,
        (ip_addr.len() as int) == (other_ip.len() as int) && endpoint_url(ip_addr, endpoint) == endpoint_url(other_ip, endpoint)
            ==> ip_addr == other_ip,
        endpoint_url(ip_addr, endpoint) == endpoint_url(ip_addr, other_endpoint) ==> endpoint == other_endpoint,
{
    reveal_strlit("http://");
    reveal_strlit("/");
    let u = endpoint_url(ip_addr, endpoint);
    assert(u.subrange(0, 7) =~= "http://"@);
    assert(u.subrange(7, 7 + (ip_addr.len() as int)) =~= ip_addr);
    assert(u.subrange(8 + (ip_addr.len() as int), 8 + (ip_addr.len() as int) + (endpoint.len() as int)) =~= endpoint);
    let v = endpoint_url(other_ip, endpoint);
    if (ip_addr.len() as int) == (other_ip.len() as int) && u == v {
        assert(v.subrange(7, 7 + (other_ip.len() as int)) =~= other_ip);
    }
    let w = endpoint_url(ip_addr, other_endpoint);
    if u == w {
        assert(w.len() == 8 + (ip_addr.len() as int) + (other_endpoint.len() as int));
        assert(w.subrange(8 + (ip_addr.len() as int), 8 + (ip_addr.len() as int) + (other_endpoint.len() as int)) =~= other_endpoint);
    }
}

fn append_bytes(out: &mut Vec<u8>, bytes: &[u8])
    ensures
        final(out)@ == old(out)@ + bytes@,
{
    let n = bytes.len();
    let ghost start = out@;
    let mut i: usize = 0;
    while i < n
        invariant
            i <= n,
            n == bytes@.len(),
            out@ == start + bytes@.subrange(0, i as int),
        decreases n - i,
    {
        out.push(bytes[i]);
        assert(bytes@.subrange(0, i + 1) =~= bytes@.subrange(0, i as int).push(bytes[i as int]));
        i = i + 1;
    }
    assert(bytes@.subrange(0, n as int) =~= bytes@);
}

/// The answer to the router's login challenge, for the realm and the
/// challenge that it sent in `X-NDM-Realm` and `X-NDM-Challenge`.
pub fn challenge_response(login: &str, realm: &str, password: &str, challenge: &str) -> (res: String)
    ensures
        res@ == challenge_answer(login.spec_bytes(), realm.spec_bytes(), password.spec_bytes(), challenge.spec_bytes()),
{
    let mut input: Vec<u8> = Vec::new();
    append_bytes(&mut input, login.as_bytes());
    input.push(58u8);
    append_bytes(&mut input, realm.as_bytes());
    input.push(58u8);
    append_bytes(&mut input, password.as_bytes());
    assert(input@ =~= md5_input(login.spec_bytes(), realm.spec_bytes(), password.spec_bytes()));
    let md5 = md5_digest(input.as_slice());
    let mut second: Vec<u8> = Vec::new();
    append_bytes(&mut second, challenge.as_bytes());
    let mut md5_hex = String::new();
    push_hex(&mut md5_hex, md5.as_slice());
    proof {
        crate::text::lemma_hex_digits_ascii(md5@);
        crate::text::lemma_ascii_text_bytes(hex_digits(md5@));
    }
    append_bytes(&mut second, md5_hex.as_str().as_bytes());
    let sha = sha256_digest(second.as_slice());
    let mut out = String::new();
    push_hex(&mut out, sha.as_slice());
    out
}

impl KeenClient {
    /// A client of the router at `ip_addr`; making one cannot fail.
    pub fn new(ip_addr: String) -> (res: Result<Self, reqwest::Error>)
        ensures
            res matches Ok(c) && c.ip_addr == ip_addr,
    {
        Ok(KeenClient { ip_addr })
    }

    /// `http://{ip_addr}/{endpoint}`, where a request for `endpoint` goes.
    pub fn url(&self, endpoint: &str) -> (res: String)
        ensures
            res@ == endpoint_url(self.ip_addr@, endpoint@),
    {
        let mut url = String::new();
        url.append("http://");
        url.append(self.ip_addr.as_str());
        url.append("/");
        url.append(endpoint);
        url
    }

    /// Where a login starts: `GET http://{ip_addr}/auth`.
    pub fn auth_url(&self) -> (res: String)
        ensures
            res@ == endpoint_url(self.ip_addr@, "auth"@),
    {
        self.url("auth")
    }

    /// Where the PPPoE interface is read: `GET
    /// http://{ip_addr}/rci/show/interface/PPPoE0`.
    pub fn interface_url(&self) -> (res: String)
        ensures
            res@ == endpoint_url(self.ip_addr@, "rci/show/interface/PPPoE0"@),
    {
        self.url("rci/show/interface/PPPoE0")
    }

    /// The one request that rerolls the PPPoE connection: `POST
    /// http://{ip_addr}/rci/` with the commands of `reroll_request`, down then
    /// up, or only up on a dry run.
    pub fn reroll_target(&self, dry_run: bool) -> (res: (String, Vec<RciCommand>))
        ensures
            res.0@ == endpoint_url(self.ip_addr@, "rci/"@),
            dry_run ==> res.1@.len() == 1 && res.1@[0].parse@ == interface_up(),
            !dry_run ==> res.1@.len() == 2 && res.1@[0].parse@ == interface_down() && res.1@[1].parse@
                == interface_up(),
    {
        (self.url("rci/"), reroll_request(dry_run))
    }

    /// What follows the router's answer to `GET /auth` with the given
    /// status and headers: a `401` asks for the challenge to be answered
    /// (a missing header counts as empty); any other status ends the login,
    /// authorised when it is `200`.
    pub fn auth_step(
        &self,
        status: u16,
        login: &str,
        password: &str,
        realm: Option<&str>,
        challenge: Option<&str>,
    ) -> (res: AuthStep)
        ensures
            status != 401 ==> res == AuthStep::Done(status == 200),
            status == 401 ==> (res matches AuthStep::Respond(url, p)
                && url@ == endpoint_url(self.ip_addr@, "auth"@)
                && p.login@ == login@
                && p.password@ == challenge_answer(
                    login.spec_bytes(),
                    match realm { Some(r) => r.spec_bytes(), None => Seq::empty() },
                    password.spec_bytes(),
                    match challenge { Some(c) => c.spec_bytes(), None => Seq::empty() },
                )),
    {
        if status != 401 {
            return AuthStep::Done(status == 200);
        }
        let realm = match realm {
            Some(r) => r,
            None => "",
        };
        let challenge = match challenge {
            Some(c) => c,
            None => "",
        };
        proof {
            reveal_strlit("");
            assert(""@ =~= Seq::<char>::empty());
            assert(vstd::utf8::encode_utf8(""@) =~= Seq::<u8>::empty());
        }
        let answer = challenge_response(login, realm, password, challenge);
        AuthStep::Respond(self.url("auth"), AuthPayload { login: login.to_owned(), password: answer })
    }
}

/// Whether the router accepted the answer to its challenge.
pub fn auth_accepted(status: u16) -> (res: bool)
    ensures
        res == (status == 200),
{
    status == 200
}

/// One command of the router's command line, as the `rci/` endpoint takes
/// it: `{"parse": ...}`.
pub struct RciCommand {
    pub parse: String,
}

/// The command line that brings the PPPoE interface down.
pub open spec fn interface_down() -> Seq<char> {
    "interface PPPoE0 down"@
}

/// The command line that brings the PPPoE interface up.
pub open spec fn interface_up() -> Seq<char> {
    "interface PPPoE0 up"@
}

/// The commands that reroll the PPPoE connection: down, then up. A dry run
/// only brings the interface up, which leaves a running connection as it is.
pub fn reroll_request(dry_run: bool) -> (res: Vec<RciCommand>)
    ensures
        dry_run ==> res@.len() == 1 && res@[0].parse@ == interface_up(),
        !dry_run ==> res@.len() == 2 && res@[0].parse@ == interface_down() && res@[1].parse@ == interface_up(),
{
    let mut commands: Vec<RciCommand> = Vec::new();
    if !dry_run {
        commands.push(RciCommand { parse: "interface PPPoE0 down".to_owned() });
    }
    commands.push(RciCommand { parse: "interface PPPoE0 up".to_owned() });
    commands
}

/// What a request to the router tells the caller: the text of the response;
/// `Failed to get response text` where the response had none to read; the
/// error's text where the request failed.
pub fn http_reply(outcome: Result<Option<String>, String>) -> (res: String)
    ensures
        match outcome {
            Ok(Some(text)) => res == text,
            Ok(None) => res@ == "Failed to get response text"@,
            Err(e) => res == e,
        },
{
    match outcome {
        Ok(Some(text)) => text,
        Ok(None) => "Failed to get response text".to_owned(),
        Err(e) => e,
    }
}

/// What the front end does for one command, once the login is over.
pub enum KeenRunStep {
    /// Answer with this text and do nothing more.
    Reply(String),
    /// Show the PPPoE interface.
    GetInterface,
    /// Reroll the PPPoE connection, as a dry run or not.
    Reroll(bool),
}

/// The reply to a command when the router refused the login:
/// `{"detail":"Authentication failed"}`.
pub open spec fn auth_failed_reply() -> Seq<char> {
    "{\"detail\":\"Authentication failed\"}"@
}

/// The step for `command` after a login with the given outcome: the
/// login's error text where it failed; a JSON `detail` where the router
/// refused it; else `get_interface` shows the interface, `reroll` rerolls
/// (as a dry run where the settings say so), and any other command is
/// answered `Unknown command`.
pub fn keen_run_step(auth: Result<bool, String>, command: &str, dry_run: bool) -> (res: KeenRunStep)
    ensures
        match auth {
            Err(e) => res == KeenRunStep::Reply(e),
            Ok(false) => res matches KeenRunStep::Reply(t) && t@ == auth_failed_reply(),
            Ok(true) => if command@ == "get_interface"@ {
                res == KeenRunStep::GetInterface
            } else if command@ == "reroll"@ {
                res == KeenRunStep::Reroll(dry_run)
            } else {
                res matches KeenRunStep::Reply(t) && t@ == "Unknown command"@
            },
        },
{
    match auth {
        Err(e) => KeenRunStep::Reply(e),
        Ok(false) => KeenRunStep::Reply("{\"detail\":\"Authentication failed\"}".to_owned()),
        Ok(true) => {
            if same_text(command, "get_interface") {
                KeenRunStep::GetInterface
            } else if same_text(command, "reroll") {
                KeenRunStep::Reroll(dry_run)
            } else {
                KeenRunStep::Reply("Unknown command".to_owned())
            }
        },
    }
}

} // verus!
