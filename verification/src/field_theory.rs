//! Facts about the field that rest on `p = 2^61 - 1` being prime.
//!
//! The element `37` generates the multiplicative group: `37^(p-1) = 1` and
//! `37^((p-1)/q) != 1` for every prime `q` dividing
//! `p - 1 = 2 · 3² · 5² · 7 · 11 · 13 · 31 · 41 · 61 · 151 · 331 · 1321`.
//! Hence its powers `37^1, …, 37^(p-1)` are the `p - 1` nonzero residues,
//! from which Fermat's little theorem and the absence of zero divisors follow.

use vstd::prelude::*;
use vstd::arithmetic::div_mod::*;
use vstd::arithmetic::mul::*;
use vstd::arithmetic::power::*;
use vstd::set_lib::*;
use vstd::relations::injective_on;

use crate::field::{P, field_norm, field_mul, field_pow, field_inv};

verus! {

/// Squaring step of a power computation modulo `p`.
proof fn lemma_pow_double(b: int, e: nat, r: int)
    requires
        pow(b, e) % (P as int) == r,
    ensures
        pow(b, 2 * e) % (P as int) == (r * r) % (P as int),
{
    lemma_pow_adds(b, e, e);
    lemma_mul_mod_noop(pow(b, e), pow(b, e), P as int);
}

/// Square-and-multiply step of a power computation modulo `p`.
proof fn lemma_pow_double_plus_one(b: int, e: nat, r: int)
    requires
        pow(b, e) % (P as int) == r,
    ensures
        pow(b, 2 * e + 1) % (P as int) == (r * r * b) % (P as int),
{
    lemma_pow_double(b, e, r);
    lemma_pow_adds(b, 2 * e, 1);
    lemma_pow1(b);
    lemma_mul_mod_noop_left(pow(b, 2 * e), b, P as int);
    lemma_mul_mod_noop_left(r * r, b, P as int);
}

/// `37^(p-1) = 1 (mod p)`, by square-and-multiply.
proof fn lemma_generator_full_power()
    ensures
        pow(37, (P - 1) as nat) % (P as int) == 1,
{
    lemma_pow1(37);
    assert(pow(37, 1) % (P as int) == 37);
    assert(pow(37, 3) % (P as int) == 50653) by {
        lemma_pow_double_plus_one(37, 1, 37);
    }
    assert(pow(37, 7) % (P as int) == 94931877133) by {
        lemma_pow_double_plus_one(37, 3, 50653);
    }
    assert(pow(37, 15) % (P as int) == 616232432238528334) by {
        lemma_pow_double_plus_one(37, 7, 94931877133);
    }
    assert(pow(37, 31) % (P as int) == 1067761076559589719) by {
        lemma_pow_double_plus_one(37, 15, 616232432238528334);
    }
    assert(pow(37, 63) % (P as int) == 2160247207917981979) by {
        lemma_pow_double_plus_one(37, 31, 1067761076559589719);
    }
    assert(pow(37, 127) % (P as int) == 855349401310129110) by {
        lemma_pow_double_plus_one(37, 63, 2160247207917981979);
    }
    assert(pow(37, 255) % (P as int) == 17559955930831155) by {
        lemma_pow_double_plus_one(37, 127, 855349401310129110);
    }
    assert(pow(37, 511) % (P as int) == 1982590151784908642) by {
        lemma_pow_double_plus_one(37, 255, 17559955930831155);
    }
    assert(pow(37, 1023) % (P as int) == 1620483921678490712) by {
        lemma_pow_double_plus_one(37, 511, 1982590151784908642);
    }
    assert(pow(37, 2047) % (P as int) == 797045535697622152) by {
        lemma_pow_double_plus_one(37, 1023, 1620483921678490712);
    }
    assert(pow(37, 4095) % (P as int) == 1257334999016106904) by {
        lemma_pow_double_plus_one(37, 2047, 797045535697622152);
    }
    assert(pow(37, 8191) % (P as int) == 1326275558510608058) by {
        lemma_pow_double_plus_one(37, 4095, 1257334999016106904);
    }
    assert(pow(37, 16383) % (P as int) == 1027037413379420476) by {
        lemma_pow_double_plus_one(37, 8191, 1326275558510608058);
    }
    assert(pow(37, 32767) % (P as int) == 792969103897778437) by {
        lemma_pow_double_plus_one(37, 16383, 1027037413379420476);
    }
    assert(pow(37, 65535) % (P as int) == 1031382600202606767) by {
        lemma_pow_double_plus_one(37, 32767, 792969103897778437);
    }
    assert(pow(37, 131071) % (P as int) == 1347001718399633696) by {
        lemma_pow_double_plus_one(37, 65535, 1031382600202606767);
    }
    assert(pow(37, 262143) % (P as int) == 1724925218690992514) by {
        lemma_pow_double_plus_one(37, 131071, 1347001718399633696);
    }
    assert(pow(37, 524287) % (P as int) == 1453233501296778526) by {
        lemma_pow_double_plus_one(37, 262143, 1724925218690992514);
    }
    assert(pow(37, 1048575) % (P as int) == 1099677923156926765) by {
        lemma_pow_double_plus_one(37, 524287, 1453233501296778526);
    }
    assert(pow(37, 2097151) % (P as int) == 2092245920878342309) by {
        lemma_pow_double_plus_one(37, 1048575, 1099677923156926765);
    }
    assert(pow(37, 4194303) % (P as int) == 1605244839025374608) by {
        lemma_pow_double_plus_one(37, 2097151, 2092245920878342309);
    }
    assert(pow(37, 8388607) % (P as int) == 2183037166537906602) by {
        lemma_pow_double_plus_one(37, 4194303, 1605244839025374608);
    }
    assert(pow(37, 16777215) % (P as int) == 183149001584008162) by {
        lemma_pow_double_plus_one(37, 8388607, 2183037166537906602);
    }
    assert(pow(37, 33554431) % (P as int) == 1418177623632872530) by {
        lemma_pow_double_plus_one(37, 16777215, 183149001584008162);
    }
    assert(pow(37, 67108863) % (P as int) == 1746942060528806933) by {
        lemma_pow_double_plus_one(37, 33554431, 1418177623632872530);
    }
    assert(pow(37, 134217727) % (P as int) == 630697426093268917) by {
        lemma_pow_double_plus_one(37, 67108863, 1746942060528806933);
    }
    assert(pow(37, 268435455) % (P as int) == 376432223738409504) by {
        lemma_pow_double_plus_one(37, 134217727, 630697426093268917);
    }
    assert(pow(37, 536870911) % (P as int) == 390707841013759486) by {
        lemma_pow_double_plus_one(37, 268435455, 376432223738409504);
    }
    assert(pow(37, 1073741823) % (P as int) == 1448294951189675369) by {
        lemma_pow_double_plus_one(37, 536870911, 390707841013759486);
    }
    assert(pow(37, 2147483647) % (P as int) == 983725788124143492) by {
        lemma_pow_double_plus_one(37, 1073741823, 1448294951189675369);
    }
    assert(pow(37, 4294967295) % (P as int) == 1199192266751270169) by {
        lemma_pow_double_plus_one(37, 2147483647, 983725788124143492);
    }
    assert(pow(37, 8589934591) % (P as int) == 1203300310530352532) by {
        lemma_pow_double_plus_one(37, 4294967295, 1199192266751270169);
    }
    assert(pow(37, 17179869183) % (P as int) == 480090538363525378) by {
        lemma_pow_double_plus_one(37, 8589934591, 1203300310530352532);
    }
    assert(pow(37, 34359738367) % (P as int) == 334331629749579883) by {
        lemma_pow_double_plus_one(37, 17179869183, 480090538363525378);
    }
    assert(pow(37, 68719476735) % (P as int) == 455104342175505871) by {
        lemma_pow_double_plus_one(37, 34359738367, 334331629749579883);
    }
    assert(pow(37, 137438953471) % (P as int) == 1544565166928568020) by {
        lemma_pow_double_plus_one(37, 68719476735, 455104342175505871);
    }
    assert(pow(37, 274877906943) % (P as int) == 2045727898986795046) by {
        lemma_pow_double_plus_one(37, 137438953471, 1544565166928568020);
    }
    assert(pow(37, 549755813887) % (P as int) == 423292441951084064) by {
        lemma_pow_double_plus_one(37, 274877906943, 2045727898986795046);
    }
    assert(pow(37, 1099511627775) % (P as int) == 1568695384996601055) by {
        lemma_pow_double_plus_one(37, 549755813887, 423292441951084064);
    }
    assert(pow(37, 2199023255551) % (P as int) == 2275660858703280968) by {
        lemma_pow_double_plus_one(37, 1099511627775, 1568695384996601055);
    }
    assert(pow(37, 4398046511103) % (P as int) == 1858495172298561556) by {
        lemma_pow_double_plus_one(37, 2199023255551, 2275660858703280968);
    }
    assert(pow(37, 8796093022207) % (P as int) == 569054343849813891) by {
        lemma_pow_double_plus_one(37, 4398046511103, 1858495172298561556);
    }
    assert(pow(37, 17592186044415) % (P as int) == 886333699051663696) by {
        lemma_pow_double_plus_one(37, 8796093022207, 569054343849813891);
    }
    assert(pow(37, 35184372088831) % (P as int) == 463128168740212936) by {
        lemma_pow_double_plus_one(37, 17592186044415, 886333699051663696);
    }
    assert(pow(37, 70368744177663) % (P as int) == 1470276502997402596) by {
        lemma_pow_double_plus_one(37, 35184372088831, 463128168740212936);
    }
    assert(pow(37, 140737488355327) % (P as int) == 37549068569124474) by {
        lemma_pow_double_plus_one(37, 70368744177663, 1470276502997402596);
    }
    assert(pow(37, 281474976710655) % (P as int) == 1414835963212151744) by {
        lemma_pow_double_plus_one(37, 140737488355327, 37549068569124474);
    }
    assert(pow(37, 562949953421311) % (P as int) == 1404452490455214912) by {
        lemma_pow_double_plus_one(37, 281474976710655, 1414835963212151744);
    }
    assert(pow(37, 1125899906842623) % (P as int) == 986900387641965560) by {
        lemma_pow_double_plus_one(37, 562949953421311, 1404452490455214912);
    }
    assert(pow(37, 2251799813685247) % (P as int) == 535518748352900891) by {
        lemma_pow_double_plus_one(37, 1125899906842623, 986900387641965560);
    }
    assert(pow(37, 4503599627370495) % (P as int) == 2232011143292030077) by {
        lemma_pow_double_plus_one(37, 2251799813685247, 535518748352900891);
    }
    assert(pow(37, 9007199254740991) % (P as int) == 890189381615080432) by {
        lemma_pow_double_plus_one(37, 4503599627370495, 2232011143292030077);
    }
    assert(pow(37, 18014398509481983) % (P as int) == 1761649932630505639) by {
        lemma_pow_double_plus_one(37, 9007199254740991, 890189381615080432);
    }
    assert(pow(37, 36028797018963967) % (P as int) == 501083222385903000) by {
        lemma_pow_double_plus_one(37, 18014398509481983, 1761649932630505639);
    }
    assert(pow(37, 72057594037927935) % (P as int) == 240463311600167310) by {
        lemma_pow_double_plus_one(37, 36028797018963967, 501083222385903000);
    }
    assert(pow(37, 144115188075855871) % (P as int) == 551145387734888436) by {
        lemma_pow_double_plus_one(37, 72057594037927935, 240463311600167310);
    }
    assert(pow(37, 288230376151711743) % (P as int) == 445201096132025520) by {
        lemma_pow_double_plus_one(37, 144115188075855871, 551145387734888436);
    }
    assert(pow(37, 576460752303423487) % (P as int) == 410258773913995094) by {
        lemma_pow_double_plus_one(37, 288230376151711743, 445201096132025520);
    }
    assert(pow(37, 1152921504606846975) % (P as int) == 2305843009213693950) by {
        lemma_pow_double_plus_one(37, 576460752303423487, 410258773913995094);
    }
    assert(pow(37, 2305843009213693950) % (P as int) == 1) by {
        lemma_pow_double(37, 1152921504606846975, 2305843009213693950);
    }
}

/// `37^((p-1)/2) != 1 (mod p)`, by square-and-multiply.
proof fn lemma_generator_power_over_2()
    ensures
        pow(37, ((P - 1) / 2) as nat) % (P as int) == 2305843009213693950,
{
    lemma_pow1(37);
    assert(pow(37, 1) % (P as int) == 37);
    assert(pow(37, 3) % (P as int) == 50653) by {
        lemma_pow_double_plus_one(37, 1, 37);
    }
    assert(pow(37, 7) % (P as int) == 94931877133) by {
        lemma_pow_double_plus_one(37, 3, 50653);
    }
    assert(pow(37, 15) % (P as int) == 616232432238528334) by {
        lemma_pow_double_plus_one(37, 7, 94931877133);
    }
    assert(pow(37, 31) % (P as int) == 1067761076559589719) by {
        lemma_pow_double_plus_one(37, 15, 616232432238528334);
    }
    assert(pow(37, 63) % (P as int) == 2160247207917981979) by {
        lemma_pow_double_plus_one(37, 31, 1067761076559589719);
    }
    assert(pow(37, 127) % (P as int) == 855349401310129110) by {
        lemma_pow_double_plus_one(37, 63, 2160247207917981979);
    }
    assert(pow(37, 255) % (P as int) == 17559955930831155) by {
        lemma_pow_double_plus_one(37, 127, 855349401310129110);
    }
    assert(pow(37, 511) % (P as int) == 1982590151784908642) by {
        lemma_pow_double_plus_one(37, 255, 17559955930831155);
    }
    assert(pow(37, 1023) % (P as int) == 1620483921678490712) by {
        lemma_pow_double_plus_one(37, 511, 1982590151784908642);
    }
    assert(pow(37, 2047) % (P as int) == 797045535697622152) by {
        lemma_pow_double_plus_one(37, 1023, 1620483921678490712);
    }
    assert(pow(37, 4095) % (P as int) == 1257334999016106904) by {
        lemma_pow_double_plus_one(37, 2047, 797045535697622152);
    }
    assert(pow(37, 8191) % (P as int) == 1326275558510608058) by {
        lemma_pow_double_plus_one(37, 4095, 1257334999016106904);
    }
    assert(pow(37, 16383) % (P as int) == 1027037413379420476) by {
        lemma_pow_double_plus_one(37, 8191, 1326275558510608058);
    }
    assert(pow(37, 32767) % (P as int) == 792969103897778437) by {
        lemma_pow_double_plus_one(37, 16383, 1027037413379420476);
    }
    assert(pow(37, 65535) % (P as int) == 1031382600202606767) by {
        lemma_pow_double_plus_one(37, 32767, 792969103897778437);
    }
    assert(pow(37, 131071) % (P as int) == 1347001718399633696) by {
        lemma_pow_double_plus_one(37, 65535, 1031382600202606767);
    }
    assert(pow(37, 262143) % (P as int) == 1724925218690992514) by {
        lemma_pow_double_plus_one(37, 131071, 1347001718399633696);
    }
    assert(pow(37, 524287) % (P as int) == 1453233501296778526) by {
        lemma_pow_double_plus_one(37, 262143, 1724925218690992514);
    }
    assert(pow(37, 1048575) % (P as int) == 1099677923156926765) by {
        lemma_pow_double_plus_one(37, 524287, 1453233501296778526);
    }
    assert(pow(37, 2097151) % (P as int) == 2092245920878342309) by {
        lemma_pow_double_plus_one(37, 1048575, 1099677923156926765);
    }
    assert(pow(37, 4194303) % (P as int) == 1605244839025374608) by {
        lemma_pow_double_plus_one(37, 2097151, 2092245920878342309);
    }
    assert(pow(37, 8388607) % (P as int) == 2183037166537906602) by {
        lemma_pow_double_plus_one(37, 4194303, 1605244839025374608);
    }
    assert(pow(37, 16777215) % (P as int) == 183149001584008162) by {
        lemma_pow_double_plus_one(37, 8388607, 2183037166537906602);
    }
    assert(pow(37, 33554431) % (P as int) == 1418177623632872530) by {
        lemma_pow_double_plus_one(37, 16777215, 183149001584008162);
    }
    assert(pow(37, 67108863) % (P as int) == 1746942060528806933) by {
        lemma_pow_double_plus_one(37, 33554431, 1418177623632872530);
    }
    assert(pow(37, 134217727) % (P as int) == 630697426093268917) by {
        lemma_pow_double_plus_one(37, 67108863, 1746942060528806933);
    }
    assert(pow(37, 268435455) % (P as int) == 376432223738409504) by {
        lemma_pow_double_plus_one(37, 134217727, 630697426093268917);
    }
    assert(pow(37, 536870911) % (P as int) == 390707841013759486) by {
        lemma_pow_double_plus_one(37, 268435455, 376432223738409504);
    }
    assert(pow(37, 1073741823) % (P as int) == 1448294951189675369) by {
        lemma_pow_double_plus_one(37, 536870911, 390707841013759486);
    }
    assert(pow(37, 2147483647) % (P as int) == 983725788124143492) by {
        lemma_pow_double_plus_one(37, 1073741823, 1448294951189675369);
    }
    assert(pow(37, 4294967295) % (P as int) == 1199192266751270169) by {
        lemma_pow_double_plus_one(37, 2147483647, 983725788124143492);
    }
    assert(pow(37, 8589934591) % (P as int) == 1203300310530352532) by {
        lemma_pow_double_plus_one(37, 4294967295, 1199192266751270169);
    }
    assert(pow(37, 17179869183) % (P as int) == 480090538363525378) by {
        lemma_pow_double_plus_one(37, 8589934591, 1203300310530352532);
    }
    assert(pow(37, 34359738367) % (P as int) == 334331629749579883) by {
        lemma_pow_double_plus_one(37, 17179869183, 480090538363525378);
    }
    assert(pow(37, 68719476735) % (P as int) == 455104342175505871) by {
        lemma_pow_double_plus_one(37, 34359738367, 334331629749579883);
    }
    assert(pow(37, 137438953471) % (P as int) == 1544565166928568020) by {
        lemma_pow_double_plus_one(37, 68719476735, 455104342175505871);
    }
    assert(pow(37, 274877906943) % (P as int) == 2045727898986795046) by {
        lemma_pow_double_plus_one(37, 137438953471, 1544565166928568020);
    }
    assert(pow(37, 549755813887) % (P as int) == 423292441951084064) by {
        lemma_pow_double_plus_one(37, 274877906943, 2045727898986795046);
    }
    assert(pow(37, 1099511627775) % (P as int) == 1568695384996601055) by {
        lemma_pow_double_plus_one(37, 549755813887, 423292441951084064);
    }
    assert(pow(37, 2199023255551) % (P as int) == 2275660858703280968) by {
        lemma_pow_double_plus_one(37, 1099511627775, 1568695384996601055);
    }
    assert(pow(37, 4398046511103) % (P as int) == 1858495172298561556) by {
        lemma_pow_double_plus_one(37, 2199023255551, 2275660858703280968);
    }
    assert(pow(37, 8796093022207) % (P as int) == 569054343849813891) by {
        lemma_pow_double_plus_one(37, 4398046511103, 1858495172298561556);
    }
    assert(pow(37, 17592186044415) % (P as int) == 886333699051663696) by {
        lemma_pow_double_plus_one(37, 8796093022207, 569054343849813891);
    }
    assert(pow(37, 35184372088831) % (P as int) == 463128168740212936) by {
        lemma_pow_double_plus_one(37, 17592186044415, 886333699051663696);
    }
    assert(pow(37, 70368744177663) % (P as int) == 1470276502997402596) by {
        lemma_pow_double_plus_one(37, 35184372088831, 463128168740212936);
    }
    assert(pow(37, 140737488355327) % (P as int) == 37549068569124474) by {
        lemma_pow_double_plus_one(37, 70368744177663, 1470276502997402596);
    }
    assert(pow(37, 281474976710655) % (P as int) == 1414835963212151744) by {
        lemma_pow_double_plus_one(37, 140737488355327, 37549068569124474);
    }
    assert(pow(37, 562949953421311) % (P as int) == 1404452490455214912) by {
        lemma_pow_double_plus_one(37, 281474976710655, 1414835963212151744);
    }
    assert(pow(37, 1125899906842623) % (P as int) == 986900387641965560) by {
        lemma_pow_double_plus_one(37, 562949953421311, 1404452490455214912);
    }
    assert(pow(37, 2251799813685247) % (P as int) == 535518748352900891) by {
        lemma_pow_double_plus_one(37, 1125899906842623, 986900387641965560);
    }
    assert(pow(37, 4503599627370495) % (P as int) == 2232011143292030077) by {
        lemma_pow_double_plus_one(37, 2251799813685247, 535518748352900891);
    }
    assert(pow(37, 9007199254740991) % (P as int) == 890189381615080432) by {
        lemma_pow_double_plus_one(37, 4503599627370495, 2232011143292030077);
    }
    assert(pow(37, 18014398509481983) % (P as int) == 1761649932630505639) by {
        lemma_pow_double_plus_one(37, 9007199254740991, 890189381615080432);
    }
    assert(pow(37, 36028797018963967) % (P as int) == 501083222385903000) by {
        lemma_pow_double_plus_one(37, 18014398509481983, 1761649932630505639);
    }
    assert(pow(37, 72057594037927935) % (P as int) == 240463311600167310) by {
        lemma_pow_double_plus_one(37, 36028797018963967, 501083222385903000);
    }
    assert(pow(37, 144115188075855871) % (P as int) == 551145387734888436) by {
        lemma_pow_double_plus_one(37, 72057594037927935, 240463311600167310);
    }
    assert(pow(37, 288230376151711743) % (P as int) == 445201096132025520) by {
        lemma_pow_double_plus_one(37, 144115188075855871, 551145387734888436);
    }
    assert(pow(37, 576460752303423487) % (P as int) == 410258773913995094) by {
        lemma_pow_double_plus_one(37, 288230376151711743, 445201096132025520);
    }
    assert(pow(37, 1152921504606846975) % (P as int) == 2305843009213693950) by {
        lemma_pow_double_plus_one(37, 576460752303423487, 410258773913995094);
    }
}

/// `37^((p-1)/3) != 1 (mod p)`, by square-and-multiply.
proof fn lemma_generator_power_over_3()
    ensures
        pow(37, ((P - 1) / 3) as nat) % (P as int) == 1669582390241348315,
{
    lemma_pow1(37);
    assert(pow(37, 1) % (P as int) == 37);
    assert(pow(37, 2) % (P as int) == 1369) by {
        lemma_pow_double(37, 1, 37);
    }
    assert(pow(37, 5) % (P as int) == 69343957) by {
        lemma_pow_double_plus_one(37, 2, 1369);
    }
    assert(pow(37, 10) % (P as int) == 4808584372417849) by {
        lemma_pow_double(37, 5, 69343957);
    }
    assert(pow(37, 21) % (P as int) == 888694961596119149) by {
        lemma_pow_double_plus_one(37, 10, 4808584372417849);
    }
    assert(pow(37, 42) % (P as int) == 894912350165519413) by {
        lemma_pow_double(37, 21, 888694961596119149);
    }
    assert(pow(37, 85) % (P as int) == 454275093892428641) by {
        lemma_pow_double_plus_one(37, 42, 894912350165519413);
    }
    assert(pow(37, 170) % (P as int) == 701131434997227562) by {
        lemma_pow_double(37, 85, 454275093892428641);
    }
    assert(pow(37, 341) % (P as int) == 1062632865798030855) by {
        lemma_pow_double_plus_one(37, 170, 701131434997227562);
    }
    assert(pow(37, 682) % (P as int) == 2036605303778127185) by {
        lemma_pow_double(37, 341, 1062632865798030855);
    }
    assert(pow(37, 1365) % (P as int) == 674187799617275941) by {
        lemma_pow_double_plus_one(37, 682, 2036605303778127185);
    }
    assert(pow(37, 2730) % (P as int) == 321343956040114611) by {
        lemma_pow_double(37, 1365, 674187799617275941);
    }
    assert(pow(37, 5461) % (P as int) == 1415589617482217355) by {
        lemma_pow_double_plus_one(37, 2730, 321343956040114611);
    }
    assert(pow(37, 10922) % (P as int) == 812136621146772022) by {
        lemma_pow_double(37, 5461, 1415589617482217355);
    }
    assert(pow(37, 21845) % (P as int) == 17332842845320060) by {
        lemma_pow_double_plus_one(37, 10922, 812136621146772022);
    }
    assert(pow(37, 43690) % (P as int) == 1020017986162963204) by {
        lemma_pow_double(37, 21845, 17332842845320060);
    }
    assert(pow(37, 87381) % (P as int) == 91942713044571089) by {
        lemma_pow_double_plus_one(37, 43690, 1020017986162963204);
    }
    assert(pow(37, 174762) % (P as int) == 1533194195838376616) by {
        lemma_pow_double(37, 87381, 91942713044571089);
    }
    assert(pow(37, 349525) % (P as int) == 1621126735805942220) by {
        lemma_pow_double_plus_one(37, 174762, 1533194195838376616);
    }
    assert(pow(37, 699050) % (P as int) == 155718072700530028) by {
        lemma_pow_double(37, 349525, 1621126735805942220);
    }
    assert(pow(37, 1398101) % (P as int) == 1772513034245002355) by {
        lemma_pow_double_plus_one(37, 699050, 155718072700530028);
    }
    assert(pow(37, 2796202) % (P as int) == 1047606006045650792) by {
        lemma_pow_double(37, 1398101, 1772513034245002355);
    }
    assert(pow(37, 5592405) % (P as int) == 1904106815320804210) by {
        lemma_pow_double_plus_one(37, 2796202, 1047606006045650792);
    }
    assert(pow(37, 11184810) % (P as int) == 1571764092410258675) by {
        lemma_pow_double(37, 5592405, 1904106815320804210);
    }
    assert(pow(37, 22369621) % (P as int) == 2171198263364885299) by {
        lemma_pow_double_plus_one(37, 11184810, 1571764092410258675);
    }
    assert(pow(37, 44739242) % (P as int) == 442915905711901952) by {
        lemma_pow_double(37, 22369621, 2171198263364885299);
    }
    assert(pow(37, 89478485) % (P as int) == 834311503371757668) by {
        lemma_pow_double_plus_one(37, 44739242, 442915905711901952);
    }
    assert(pow(37, 178956970) % (P as int) == 1870461278028150258) by {
        lemma_pow_double(37, 89478485, 834311503371757668);
    }
    assert(pow(37, 357913941) % (P as int) == 377513485871917463) by {
        lemma_pow_double_plus_one(37, 178956970, 1870461278028150258);
    }
    assert(pow(37, 715827882) % (P as int) == 621721964039512615) by {
        lemma_pow_double(37, 357913941, 377513485871917463);
    }
    assert(pow(37, 1431655765) % (P as int) == 1129553404106673161) by {
        lemma_pow_double_plus_one(37, 715827882, 621721964039512615);
    }
    assert(pow(37, 2863311530) % (P as int) == 1489167355912447362) by {
        lemma_pow_double(37, 1431655765, 1129553404106673161);
    }
    assert(pow(37, 5726623061) % (P as int) == 1393018963882669144) by {
        lemma_pow_double_plus_one(37, 2863311530, 1489167355912447362);
    }
    assert(pow(37, 11453246122) % (P as int) == 923195156908011831) by {
        lemma_pow_double(37, 5726623061, 1393018963882669144);
    }
    assert(pow(37, 22906492245) % (P as int) == 538692970526646225) by {
        lemma_pow_double_plus_one(37, 11453246122, 923195156908011831);
    }
    assert(pow(37, 45812984490) % (P as int) == 144926145359869064) by {
        lemma_pow_double(37, 22906492245, 538692970526646225);
    }
    assert(pow(37, 91625968981) % (P as int) == 2099300904468288813) by {
        lemma_pow_double_plus_one(37, 45812984490, 144926145359869064);
    }
    assert(pow(37, 183251937962) % (P as int) == 538461566152087671) by {
        lemma_pow_double(37, 91625968981, 2099300904468288813);
    }
    assert(pow(37, 366503875925) % (P as int) == 513411917587076920) by {
        lemma_pow_double_plus_one(37, 183251937962, 538461566152087671);
    }
    assert(pow(37, 733007751850) % (P as int) == 443787270311340831) by {
        lemma_pow_double(37, 366503875925, 513411917587076920);
    }
    assert(pow(37, 1466015503701) % (P as int) == 785370285145310356) by {
        lemma_pow_double_plus_one(37, 733007751850, 443787270311340831);
    }
    assert(pow(37, 2932031007402) % (P as int) == 1872168366718845815) by {
        lemma_pow_double(37, 1466015503701, 785370285145310356);
    }
    assert(pow(37, 5864062014805) % (P as int) == 1624793147019311863) by {
        lemma_pow_double_plus_one(37, 2932031007402, 1872168366718845815);
    }
    assert(pow(37, 11728124029610) % (P as int) == 856854973097751333) by {
        lemma_pow_double(37, 5864062014805, 1624793147019311863);
    }
    assert(pow(37, 23456248059221) % (P as int) == 805073876738504324) by {
        lemma_pow_double_plus_one(37, 11728124029610, 856854973097751333);
    }
    assert(pow(37, 46912496118442) % (P as int) == 2139670068156871055) by {
        lemma_pow_double(37, 23456248059221, 805073876738504324);
    }
    assert(pow(37, 93824992236885) % (P as int) == 135064188051072503) by {
        lemma_pow_double_plus_one(37, 46912496118442, 2139670068156871055);
    }
    assert(pow(37, 187649984473770) % (P as int) == 1777883566789543120) by {
        lemma_pow_double(37, 93824992236885, 135064188051072503);
    }
    assert(pow(37, 375299968947541) % (P as int) == 1226239134593059157) by {
        lemma_pow_double_plus_one(37, 187649984473770, 1777883566789543120);
    }
    assert(pow(37, 750599937895082) % (P as int) == 1764762195221922132) by {
        lemma_pow_double(37, 375299968947541, 1226239134593059157);
    }
    assert(pow(37, 1501199875790165) % (P as int) == 2211795968926415367) by {
        lemma_pow_double_plus_one(37, 750599937895082, 1764762195221922132);
    }
    assert(pow(37, 3002399751580330) % (P as int) == 1666146269762060579) by {
        lemma_pow_double(37, 1501199875790165, 2211795968926415367);
    }
    assert(pow(37, 6004799503160661) % (P as int) == 1066696058055988684) by {
        lemma_pow_double_plus_one(37, 3002399751580330, 1666146269762060579);
    }
    assert(pow(37, 12009599006321322) % (P as int) == 796481924047603137) by {
        lemma_pow_double(37, 6004799503160661, 1066696058055988684);
    }
    assert(pow(37, 24019198012642645) % (P as int) == 339817263291208212) by {
        lemma_pow_double_plus_one(37, 12009599006321322, 796481924047603137);
    }
    assert(pow(37, 48038396025285290) % (P as int) == 2159224437699580815) by {
        lemma_pow_double(37, 24019198012642645, 339817263291208212);
    }
    assert(pow(37, 96076792050570581) % (P as int) == 2035658690790472915) by {
        lemma_pow_double_plus_one(37, 48038396025285290, 2159224437699580815);
    }
    assert(pow(37, 192153584101141162) % (P as int) == 1600724798789556215) by {
        lemma_pow_double(37, 96076792050570581, 2035658690790472915);
    }
    assert(pow(37, 384307168202282325) % (P as int) == 1669582390241348316) by {
        lemma_pow_double_plus_one(37, 192153584101141162, 1600724798789556215);
    }
    assert(pow(37, 768614336404564650) % (P as int) == 1669582390241348315) by {
        lemma_pow_double(37, 384307168202282325, 1669582390241348316);
    }
}

/// `37^((p-1)/5) != 1 (mod p)`, by square-and-multiply.
proof fn lemma_generator_power_over_5()
    ensures
        pow(37, ((P - 1) / 5) as nat) % (P as int) == 725554454131936870,
{
    lemma_pow1(37);
    assert(pow(37, 1) % (P as int) == 37);
    assert(pow(37, 3) % (P as int) == 50653) by {
        lemma_pow_double_plus_one(37, 1, 37);
    }
    assert(pow(37, 6) % (P as int) == 2565726409) by {
        lemma_pow_double(37, 3, 50653);
    }
    assert(pow(37, 12) % (P as int) == 1971265987412647379) by {
        lemma_pow_double(37, 6, 2565726409);
    }
    assert(pow(37, 25) % (P as int) == 915504708845722669) by {
        lemma_pow_double_plus_one(37, 12, 1971265987412647379);
    }
    assert(pow(37, 51) % (P as int) == 20916298949343839) by {
        lemma_pow_double_plus_one(37, 25, 915504708845722669);
    }
    assert(pow(37, 102) % (P as int) == 92200521201836915) by {
        lemma_pow_double(37, 51, 20916298949343839);
    }
    assert(pow(37, 204) % (P as int) == 1115430579838476177) by {
        lemma_pow_double(37, 102, 92200521201836915);
    }
    assert(pow(37, 409) % (P as int) == 1876819355796539757) by {
        lemma_pow_double_plus_one(37, 204, 1115430579838476177);
    }
    assert(pow(37, 819) % (P as int) == 610493114961852316) by {
        lemma_pow_double_plus_one(37, 409, 1876819355796539757);
    }
    assert(pow(37, 1638) % (P as int) == 985893244345592266) by {
        lemma_pow_double(37, 819, 610493114961852316);
    }
    assert(pow(37, 3276) % (P as int) == 1678053670663582382) by {
        lemma_pow_double(37, 1638, 985893244345592266);
    }
    assert(pow(37, 6553) % (P as int) == 849375002608753636) by {
        lemma_pow_double_plus_one(37, 3276, 1678053670663582382);
    }
    assert(pow(37, 13107) % (P as int) == 733191539943199145) by {
        lemma_pow_double_plus_one(37, 6553, 849375002608753636);
    }
    assert(pow(37, 26214) % (P as int) == 2153848202027799961) by {
        lemma_pow_double(37, 13107, 733191539943199145);
    }
    assert(pow(37, 52428) % (P as int) == 1067777443961730362) by {
        lemma_pow_double(37, 26214, 2153848202027799961);
    }
    assert(pow(37, 104857) % (P as int) == 757857164750225696) by {
        lemma_pow_double_plus_one(37, 52428, 1067777443961730362);
    }
    assert(pow(37, 209715) % (P as int) == 772599860499614537) by {
        lemma_pow_double_plus_one(37, 104857, 757857164750225696);
    }
    assert(pow(37, 419430) % (P as int) == 1603459955069609960) by {
        lemma_pow_double(37, 209715, 772599860499614537);
    }
    assert(pow(37, 838860) % (P as int) == 1253325606998238409) by {
        lemma_pow_double(37, 419430, 1603459955069609960);
    }
    assert(pow(37, 1677721) % (P as int) == 2218240285619047117) by {
        lemma_pow_double_plus_one(37, 838860, 1253325606998238409);
    }
    assert(pow(37, 3355443) % (P as int) == 1524276445583863437) by {
        lemma_pow_double_plus_one(37, 1677721, 2218240285619047117);
    }
    assert(pow(37, 6710886) % (P as int) == 426225928886305857) by {
        lemma_pow_double(37, 3355443, 1524276445583863437);
    }
    assert(pow(37, 13421772) % (P as int) == 1633159463509091852) by {
        lemma_pow_double(37, 6710886, 426225928886305857);
    }
    assert(pow(37, 26843545) % (P as int) == 1348074076142896630) by {
        lemma_pow_double_plus_one(37, 13421772, 1633159463509091852);
    }
    assert(pow(37, 53687091) % (P as int) == 2164305362464434151) by {
        lemma_pow_double_plus_one(37, 26843545, 1348074076142896630);
    }
    assert(pow(37, 107374182) % (P as int) == 1067724814112099242) by {
        lemma_pow_double(37, 53687091, 2164305362464434151);
    }
    assert(pow(37, 214748364) % (P as int) == 966220849494503741) by {
        lemma_pow_double(37, 107374182, 1067724814112099242);
    }
    assert(pow(37, 429496729) % (P as int) == 1330812745571184744) by {
        lemma_pow_double_plus_one(37, 214748364, 966220849494503741);
    }
    assert(pow(37, 858993459) % (P as int) == 1351898146307098744) by {
        lemma_pow_double_plus_one(37, 429496729, 1330812745571184744);
    }
    assert(pow(37, 1717986918) % (P as int) == 354488523461011054) by {
        lemma_pow_double(37, 858993459, 1351898146307098744);
    }
    assert(pow(37, 3435973836) % (P as int) == 416018925334076019) by {
        lemma_pow_double(37, 1717986918, 354488523461011054);
    }
    assert(pow(37, 6871947673) % (P as int) == 95894439443205505) by {
        lemma_pow_double_plus_one(37, 3435973836, 416018925334076019);
    }
    assert(pow(37, 13743895347) % (P as int) == 1781916415031705227) by {
        lemma_pow_double_plus_one(37, 6871947673, 95894439443205505);
    }
    assert(pow(37, 27487790694) % (P as int) == 1592424462823494453) by {
        lemma_pow_double(37, 13743895347, 1781916415031705227);
    }
    assert(pow(37, 54975581388) % (P as int) == 485881619451419997) by {
        lemma_pow_double(37, 27487790694, 1592424462823494453);
    }
    assert(pow(37, 109951162777) % (P as int) == 2202822284596980473) by {
        lemma_pow_double_plus_one(37, 54975581388, 485881619451419997);
    }
    assert(pow(37, 219902325555) % (P as int) == 596655221316004894) by {
        lemma_pow_double_plus_one(37, 109951162777, 2202822284596980473);
    }
    assert(pow(37, 439804651110) % (P as int) == 740722046356123805) by {
        lemma_pow_double(37, 219902325555, 596655221316004894);
    }
    assert(pow(37, 879609302220) % (P as int) == 2099460386211327809) by {
        lemma_pow_double(37, 439804651110, 740722046356123805);
    }
    assert(pow(37, 1759218604441) % (P as int) == 1233538856747676243) by {
        lemma_pow_double_plus_one(37, 879609302220, 2099460386211327809);
    }
    assert(pow(37, 3518437208883) % (P as int) == 221956992488930521) by {
        lemma_pow_double_plus_one(37, 1759218604441, 1233538856747676243);
    }
    assert(pow(37, 7036874417766) % (P as int) == 1324937114391066770) by {
        lemma_pow_double(37, 3518437208883, 221956992488930521);
    }
    assert(pow(37, 14073748835532) % (P as int) == 2096178105833530020) by {
        lemma_pow_double(37, 7036874417766, 1324937114391066770);
    }
    assert(pow(37, 28147497671065) % (P as int) == 23494523124286629) by {
        lemma_pow_double_plus_one(37, 14073748835532, 2096178105833530020);
    }
    assert(pow(37, 56294995342131) % (P as int) == 1149922276840415028) by {
        lemma_pow_double_plus_one(37, 28147497671065, 23494523124286629);
    }
    assert(pow(37, 112589990684262) % (P as int) == 437123442137237322) by {
        lemma_pow_double(37, 56294995342131, 1149922276840415028);
    }
    assert(pow(37, 225179981368524) % (P as int) == 236534828961754953) by {
        lemma_pow_double(37, 112589990684262, 437123442137237322);
    }
    assert(pow(37, 450359962737049) % (P as int) == 1768951835778280956) by {
        lemma_pow_double_plus_one(37, 225179981368524, 236534828961754953);
    }
    assert(pow(37, 900719925474099) % (P as int) == 2018299080084981804) by {
        lemma_pow_double_plus_one(37, 450359962737049, 1768951835778280956);
    }
    assert(pow(37, 1801439850948198) % (P as int) == 629618497200666380) by {
        lemma_pow_double(37, 900719925474099, 2018299080084981804);
    }
    assert(pow(37, 3602879701896396) % (P as int) == 1646573114568114956) by {
        lemma_pow_double(37, 1801439850948198, 629618497200666380);
    }
    assert(pow(37, 7205759403792793) % (P as int) == 1918469001560784304) by {
        lemma_pow_double_plus_one(37, 3602879701896396, 1646573114568114956);
    }
    assert(pow(37, 14411518807585587) % (P as int) == 622902112161152307) by {
        lemma_pow_double_plus_one(37, 7205759403792793, 1918469001560784304);
    }
    assert(pow(37, 28823037615171174) % (P as int) == 223547569593002926) by {
        lemma_pow_double(37, 14411518807585587, 622902112161152307);
    }
    assert(pow(37, 57646075230342348) % (P as int) == 2010604699696780140) by {
        lemma_pow_double(37, 28823037615171174, 223547569593002926);
    }
    assert(pow(37, 115292150460684697) % (P as int) == 205404870913749255) by {
        lemma_pow_double_plus_one(37, 57646075230342348, 2010604699696780140);
    }
    assert(pow(37, 230584300921369395) % (P as int) == 524539192131274200) by {
        lemma_pow_double_plus_one(37, 115292150460684697, 205404870913749255);
    }
    assert(pow(37, 461168601842738790) % (P as int) == 725554454131936870) by {
        lemma_pow_double(37, 230584300921369395, 524539192131274200);
    }
}

/// `37^((p-1)/7) != 1 (mod p)`, by square-and-multiply.
proof fn lemma_generator_power_over_7()
    ensures
        pow(37, ((P - 1) / 7) as nat) % (P as int) == 1165310750493918737,
{
    lemma_pow1(37);
    assert(pow(37, 1) % (P as int) == 37);
    assert(pow(37, 2) % (P as int) == 1369) by {
        lemma_pow_double(37, 1, 37);
    }
    assert(pow(37, 4) % (P as int) == 1874161) by {
        lemma_pow_double(37, 2, 1369);
    }
    assert(pow(37, 9) % (P as int) == 129961739795077) by {
        lemma_pow_double_plus_one(37, 4, 1874161);
    }
    assert(pow(37, 18) % (P as int) == 2130417461614381366) by {
        lemma_pow_double(37, 9, 129961739795077);
    }
    assert(pow(37, 36) % (P as int) == 884313560627829947) by {
        lemma_pow_double(37, 18, 2130417461614381366);
    }
    assert(pow(37, 73) % (P as int) == 858152069665194845) by {
        lemma_pow_double_plus_one(37, 36, 884313560627829947);
    }
    assert(pow(37, 146) % (P as int) == 2152298284617609383) by {
        lemma_pow_double(37, 73, 858152069665194845);
    }
    assert(pow(37, 292) % (P as int) == 1782283889081069979) by {
        lemma_pow_double(37, 146, 2152298284617609383);
    }
    assert(pow(37, 585) % (P as int) == 419244711847425238) by {
        lemma_pow_double_plus_one(37, 292, 1782283889081069979);
    }
    assert(pow(37, 1170) % (P as int) == 1017010712830157597) by {
        lemma_pow_double(37, 585, 419244711847425238);
    }
    assert(pow(37, 2340) % (P as int) == 1646774030140899483) by {
        lemma_pow_double(37, 1170, 1017010712830157597);
    }
    assert(pow(37, 4681) % (P as int) == 1125493316848410422) by {
        lemma_pow_double_plus_one(37, 2340, 1646774030140899483);
    }
    assert(pow(37, 9362) % (P as int) == 2043004164827987706) by {
        lemma_pow_double(37, 4681, 1125493316848410422);
    }
    assert(pow(37, 18724) % (P as int) == 1140820669172755891) by {
        lemma_pow_double(37, 9362, 2043004164827987706);
    }
    assert(pow(37, 37449) % (P as int) == 82244698052857267) by {
        lemma_pow_double_plus_one(37, 18724, 1140820669172755891);
    }
    assert(pow(37, 74898) % (P as int) == 2210526432403221929) by {
        lemma_pow_double(37, 37449, 82244698052857267);
    }
    assert(pow(37, 149796) % (P as int) == 997597335538543871) by {
        lemma_pow_double(37, 74898, 2210526432403221929);
    }
    assert(pow(37, 299593) % (P as int) == 1324169013180806697) by {
        lemma_pow_double_plus_one(37, 149796, 997597335538543871);
    }
    assert(pow(37, 599186) % (P as int) == 1409204877215935722) by {
        lemma_pow_double(37, 299593, 1324169013180806697);
    }
    assert(pow(37, 1198372) % (P as int) == 263882281454515095) by {
        lemma_pow_double(37, 599186, 1409204877215935722);
    }
    assert(pow(37, 2396745) % (P as int) == 953263327381320257) by {
        lemma_pow_double_plus_one(37, 1198372, 263882281454515095);
    }
    assert(pow(37, 4793490) % (P as int) == 1813160678559705135) by {
        lemma_pow_double(37, 2396745, 953263327381320257);
    }
    assert(pow(37, 9586980) % (P as int) == 2107810193979970140) by {
        lemma_pow_double(37, 4793490, 1813160678559705135);
    }
    assert(pow(37, 19173961) % (P as int) == 675593686596135514) by {
        lemma_pow_double_plus_one(37, 9586980, 2107810193979970140);
    }
    assert(pow(37, 38347922) % (P as int) == 1399030843472832829) by {
        lemma_pow_double(37, 19173961, 675593686596135514);
    }
    assert(pow(37, 76695844) % (P as int) == 1351678081686781950) by {
        lemma_pow_double(37, 38347922, 1399030843472832829);
    }
    assert(pow(37, 153391689) % (P as int) == 1992419508511438631) by {
        lemma_pow_double_plus_one(37, 76695844, 1351678081686781950);
    }
    assert(pow(37, 306783378) % (P as int) == 240322821650746190) by {
        lemma_pow_double(37, 153391689, 1992419508511438631);
    }
    assert(pow(37, 613566756) % (P as int) == 951550098337755284) by {
        lemma_pow_double(37, 306783378, 240322821650746190);
    }
    assert(pow(37, 1227133513) % (P as int) == 1954166566710201998) by {
        lemma_pow_double_plus_one(37, 613566756, 951550098337755284);
    }
    assert(pow(37, 2454267026) % (P as int) == 1440434973591732354) by {
        lemma_pow_double(37, 1227133513, 1954166566710201998);
    }
    assert(pow(37, 4908534052) % (P as int) == 1625591862248997925) by {
        lemma_pow_double(37, 2454267026, 1440434973591732354);
    }
    assert(pow(37, 9817068105) % (P as int) == 2130890589978240174) by {
        lemma_pow_double_plus_one(37, 4908534052, 1625591862248997925);
    }
    assert(pow(37, 19634136210) % (P as int) == 1025243051829880922) by {
        lemma_pow_double(37, 9817068105, 2130890589978240174);
    }
    assert(pow(37, 39268272420) % (P as int) == 1632520427078460023) by {
        lemma_pow_double(37, 19634136210, 1025243051829880922);
    }
    assert(pow(37, 78536544841) % (P as int) == 178161760022695398) by {
        lemma_pow_double_plus_one(37, 39268272420, 1632520427078460023);
    }
    assert(pow(37, 157073089682) % (P as int) == 2003652521244069712) by {
        lemma_pow_double(37, 78536544841, 178161760022695398);
    }
    assert(pow(37, 314146179364) % (P as int) == 783334626309882785) by {
        lemma_pow_double(37, 157073089682, 2003652521244069712);
    }
    assert(pow(37, 628292358729) % (P as int) == 852715988669468332) by {
        lemma_pow_double_plus_one(37, 314146179364, 783334626309882785);
    }
    assert(pow(37, 1256584717458) % (P as int) == 726651492048093752) by {
        lemma_pow_double(37, 628292358729, 852715988669468332);
    }
    assert(pow(37, 2513169434916) % (P as int) == 1170473802636696988) by {
        lemma_pow_double(37, 1256584717458, 726651492048093752);
    }
    assert(pow(37, 5026338869833) % (P as int) == 358558050878135597) by {
        lemma_pow_double_plus_one(37, 2513169434916, 1170473802636696988);
    }
    assert(pow(37, 10052677739666) % (P as int) == 130218841906050226) by {
        lemma_pow_double(37, 5026338869833, 358558050878135597);
    }
    assert(pow(37, 20105355479332) % (P as int) == 1691288877370869632) by {
        lemma_pow_double(37, 10052677739666, 130218841906050226);
    }
    assert(pow(37, 40210710958665) % (P as int) == 1876107514737879469) by {
        lemma_pow_double_plus_one(37, 20105355479332, 1691288877370869632);
    }
    assert(pow(37, 80421421917330) % (P as int) == 2174886491362978632) by {
        lemma_pow_double(37, 40210710958665, 1876107514737879469);
    }
    assert(pow(37, 160842843834660) % (P as int) == 650573771472069243) by {
        lemma_pow_double(37, 80421421917330, 2174886491362978632);
    }
    assert(pow(37, 321685687669321) % (P as int) == 1731182392199903490) by {
        lemma_pow_double_plus_one(37, 160842843834660, 650573771472069243);
    }
    assert(pow(37, 643371375338642) % (P as int) == 1802518786536779042) by {
        lemma_pow_double(37, 321685687669321, 1731182392199903490);
    }
    assert(pow(37, 1286742750677284) % (P as int) == 2287148315999403586) by {
        lemma_pow_double(37, 643371375338642, 1802518786536779042);
    }
    assert(pow(37, 2573485501354569) % (P as int) == 1435326124023024042) by {
        lemma_pow_double_plus_one(37, 1286742750677284, 2287148315999403586);
    }
    assert(pow(37, 5146971002709138) % (P as int) == 2042291364917644111) by {
        lemma_pow_double(37, 2573485501354569, 1435326124023024042);
    }
    assert(pow(37, 10293942005418276) % (P as int) == 141115568760388380) by {
        lemma_pow_double(37, 5146971002709138, 2042291364917644111);
    }
    assert(pow(37, 20587884010836553) % (P as int) == 326350606751194651) by {
        lemma_pow_double_plus_one(37, 10293942005418276, 141115568760388380);
    }
    assert(pow(37, 41175768021673106) % (P as int) == 1886223071404137603) by {
        lemma_pow_double(37, 20587884010836553, 326350606751194651);
    }
    assert(pow(37, 82351536043346212) % (P as int) == 733037796054824281) by {
        lemma_pow_double(37, 41175768021673106, 1886223071404137603);
    }
    assert(pow(37, 164703072086692425) % (P as int) == 2236639555800221980) by {
        lemma_pow_double_plus_one(37, 82351536043346212, 733037796054824281);
    }
    assert(pow(37, 329406144173384850) % (P as int) == 1165310750493918737) by {
        lemma_pow_double(37, 164703072086692425, 2236639555800221980);
    }
}

/// `37^((p-1)/11) != 1 (mod p)`, by square-and-multiply.
proof fn lemma_generator_power_over_11()
    ensures
        pow(37, ((P - 1) / 11) as nat) % (P as int) == 2266698407988980144,
{
    lemma_pow1(37);
    assert(pow(37, 1) % (P as int) == 37);
    assert(pow(37, 2) % (P as int) == 1369) by {
        lemma_pow_double(37, 1, 37);
    }
    assert(pow(37, 5) % (P as int) == 69343957) by {
        lemma_pow_double_plus_one(37, 2, 1369);
    }
    assert(pow(37, 11) % (P as int) == 177917621779460413) by {
        lemma_pow_double_plus_one(37, 5, 69343957);
    }
    assert(pow(37, 23) % (P as int) == 1444136569470402804) by {
        lemma_pow_double_plus_one(37, 11, 177917621779460413);
    }
    assert(pow(37, 46) % (P as int) == 1877957767818366770) by {
        lemma_pow_double(37, 23, 1444136569470402804);
    }
    assert(pow(37, 93) % (P as int) == 1933291806274560349) by {
        lemma_pow_double_plus_one(37, 46, 1877957767818366770);
    }
    assert(pow(37, 186) % (P as int) == 697523968445991094) by {
        lemma_pow_double(37, 93, 1933291806274560349);
    }
    assert(pow(37, 372) % (P as int) == 1220503693094626475) by {
        lemma_pow_double(37, 186, 697523968445991094);
    }
    assert(pow(37, 744) % (P as int) == 2274838273068976938) by {
        lemma_pow_double(37, 372, 1220503693094626475);
    }
    assert(pow(37, 1489) % (P as int) == 1898861473625811273) by {
        lemma_pow_double_plus_one(37, 744, 2274838273068976938);
    }
    assert(pow(37, 2978) % (P as int) == 855035248970970729) by {
        lemma_pow_double(37, 1489, 1898861473625811273);
    }
    assert(pow(37, 5957) % (P as int) == 587381514953596588) by {
        lemma_pow_double_plus_one(37, 2978, 855035248970970729);
    }
    assert(pow(37, 11915) % (P as int) == 557660086910509705) by {
        lemma_pow_double_plus_one(37, 5957, 587381514953596588);
    }
    assert(pow(37, 23831) % (P as int) == 784511978832979442) by {
        lemma_pow_double_plus_one(37, 11915, 557660086910509705);
    }
    assert(pow(37, 47662) % (P as int) == 1154579138022930181) by {
        lemma_pow_double(37, 23831, 784511978832979442);
    }
    assert(pow(37, 95325) % (P as int) == 1239766525252932883) by {
        lemma_pow_double_plus_one(37, 47662, 1154579138022930181);
    }
    assert(pow(37, 190650) % (P as int) == 1271571176372171503) by {
        lemma_pow_double(37, 95325, 1239766525252932883);
    }
    assert(pow(37, 381300) % (P as int) == 104934416332077556) by {
        lemma_pow_double(37, 190650, 1271571176372171503);
    }
    assert(pow(37, 762600) % (P as int) == 71806490447180870) by {
        lemma_pow_double(37, 381300, 104934416332077556);
    }
    assert(pow(37, 1525201) % (P as int) == 749805376422132014) by {
        lemma_pow_double_plus_one(37, 762600, 71806490447180870);
    }
    assert(pow(37, 3050402) % (P as int) == 1437811543577044739) by {
        lemma_pow_double(37, 1525201, 749805376422132014);
    }
    assert(pow(37, 6100805) % (P as int) == 1977131779445393058) by {
        lemma_pow_double_plus_one(37, 3050402, 1437811543577044739);
    }
    assert(pow(37, 12201611) % (P as int) == 1191781959706309946) by {
        lemma_pow_double_plus_one(37, 6100805, 1977131779445393058);
    }
    assert(pow(37, 24403223) % (P as int) == 1957588537553099809) by {
        lemma_pow_double_plus_one(37, 12201611, 1191781959706309946);
    }
    assert(pow(37, 48806446) % (P as int) == 1319786045772048689) by {
        lemma_pow_double(37, 24403223, 1957588537553099809);
    }
    assert(pow(37, 97612893) % (P as int) == 426291785786573142) by {
        lemma_pow_double_plus_one(37, 48806446, 1319786045772048689);
    }
    assert(pow(37, 195225786) % (P as int) == 1045216788358217664) by {
        lemma_pow_double(37, 97612893, 426291785786573142);
    }
    assert(pow(37, 390451572) % (P as int) == 869446166338448330) by {
        lemma_pow_double(37, 195225786, 1045216788358217664);
    }
    assert(pow(37, 780903144) % (P as int) == 1661426788452037322) by {
        lemma_pow_double(37, 390451572, 869446166338448330);
    }
    assert(pow(37, 1561806289) % (P as int) == 407261028165773137) by {
        lemma_pow_double_plus_one(37, 780903144, 1661426788452037322);
    }
    assert(pow(37, 3123612578) % (P as int) == 1484581175454174194) by {
        lemma_pow_double(37, 1561806289, 407261028165773137);
    }
    assert(pow(37, 6247225157) % (P as int) == 1852862121327742297) by {
        lemma_pow_double_plus_one(37, 3123612578, 1484581175454174194);
    }
    assert(pow(37, 12494450315) % (P as int) == 2247922707053137514) by {
        lemma_pow_double_plus_one(37, 6247225157, 1852862121327742297);
    }
    assert(pow(37, 24988900631) % (P as int) == 2148413331385312400) by {
        lemma_pow_double_plus_one(37, 12494450315, 2247922707053137514);
    }
    assert(pow(37, 49977801262) % (P as int) == 1719898029715368329) by {
        lemma_pow_double(37, 24988900631, 2148413331385312400);
    }
    assert(pow(37, 99955602525) % (P as int) == 1483725267778399824) by {
        lemma_pow_double_plus_one(37, 49977801262, 1719898029715368329);
    }
    assert(pow(37, 199911205050) % (P as int) == 681425966999145222) by {
        lemma_pow_double(37, 99955602525, 1483725267778399824);
    }
    assert(pow(37, 399822410100) % (P as int) == 2229618720952923778) by {
        lemma_pow_double(37, 199911205050, 681425966999145222);
    }
    assert(pow(37, 799644820200) % (P as int) == 1722704865526871423) by {
        lemma_pow_double(37, 399822410100, 2229618720952923778);
    }
    assert(pow(37, 1599289640401) % (P as int) == 2048052882046363506) by {
        lemma_pow_double_plus_one(37, 799644820200, 1722704865526871423);
    }
    assert(pow(37, 3198579280802) % (P as int) == 1170260398115875869) by {
        lemma_pow_double(37, 1599289640401, 2048052882046363506);
    }
    assert(pow(37, 6397158561605) % (P as int) == 1964920406565554243) by {
        lemma_pow_double_plus_one(37, 3198579280802, 1170260398115875869);
    }
    assert(pow(37, 12794317123211) % (P as int) == 849782993975085613) by {
        lemma_pow_double_plus_one(37, 6397158561605, 1964920406565554243);
    }
    assert(pow(37, 25588634246423) % (P as int) == 1196875442075698418) by {
        lemma_pow_double_plus_one(37, 12794317123211, 849782993975085613);
    }
    assert(pow(37, 51177268492846) % (P as int) == 620138466931819316) by {
        lemma_pow_double(37, 25588634246423, 1196875442075698418);
    }
    assert(pow(37, 102354536985693) % (P as int) == 1655589634349822915) by {
        lemma_pow_double_plus_one(37, 51177268492846, 620138466931819316);
    }
    assert(pow(37, 204709073971386) % (P as int) == 925417023639135397) by {
        lemma_pow_double(37, 102354536985693, 1655589634349822915);
    }
    assert(pow(37, 409418147942772) % (P as int) == 106194394668126838) by {
        lemma_pow_double(37, 204709073971386, 925417023639135397);
    }
    assert(pow(37, 818836295885544) % (P as int) == 1476233550525144340) by {
        lemma_pow_double(37, 409418147942772, 106194394668126838);
    }
    assert(pow(37, 1637672591771089) % (P as int) == 2118148023774440774) by {
        lemma_pow_double_plus_one(37, 818836295885544, 1476233550525144340);
    }
    assert(pow(37, 3275345183542178) % (P as int) == 67019338146649427) by {
        lemma_pow_double(37, 1637672591771089, 2118148023774440774);
    }
    assert(pow(37, 6550690367084357) % (P as int) == 498901381931523146) by {
        lemma_pow_double_plus_one(37, 3275345183542178, 67019338146649427);
    }
    assert(pow(37, 13101380734168715) % (P as int) == 574387842453315891) by {
        lemma_pow_double_plus_one(37, 6550690367084357, 498901381931523146);
    }
    assert(pow(37, 26202761468337431) % (P as int) == 73943537574132739) by {
        lemma_pow_double_plus_one(37, 13101380734168715, 574387842453315891);
    }
    assert(pow(37, 52405522936674862) % (P as int) == 1642673409062649626) by {
        lemma_pow_double(37, 26202761468337431, 73943537574132739);
    }
    assert(pow(37, 104811045873349725) % (P as int) == 507811688195676949) by {
        lemma_pow_double_plus_one(37, 52405522936674862, 1642673409062649626);
    }
    assert(pow(37, 209622091746699450) % (P as int) == 2266698407988980144) by {
        lemma_pow_double(37, 104811045873349725, 507811688195676949);
    }
}

/// `37^((p-1)/13) != 1 (mod p)`, by square-and-multiply.
proof fn lemma_generator_power_over_13()
    ensures
        pow(37, ((P - 1) / 13) as nat) % (P as int) == 1032504562576723207,
{
    lemma_pow1(37);
    assert(pow(37, 1) % (P as int) == 37);
    assert(pow(37, 2) % (P as int) == 1369) by {
        lemma_pow_double(37, 1, 37);
    }
    assert(pow(37, 4) % (P as int) == 1874161) by {
        lemma_pow_double(37, 2, 1369);
    }
    assert(pow(37, 9) % (P as int) == 129961739795077) by {
        lemma_pow_double_plus_one(37, 4, 1874161);
    }
    assert(pow(37, 19) % (P as int) == 426783766466516208) by {
        lemma_pow_double_plus_one(37, 9, 129961739795077);
    }
    assert(pow(37, 39) % (P as int) == 2134332505465307216) by {
        lemma_pow_double_plus_one(37, 19, 426783766466516208);
    }
    assert(pow(37, 78) % (P as int) == 1833824407774758982) by {
        lemma_pow_double(37, 39, 2134332505465307216);
    }
    assert(pow(37, 157) % (P as int) == 2010971979925150972) by {
        lemma_pow_double_plus_one(37, 78, 1833824407774758982);
    }
    assert(pow(37, 315) % (P as int) == 1391827962332503923) by {
        lemma_pow_double_plus_one(37, 157, 2010971979925150972);
    }
    assert(pow(37, 630) % (P as int) == 2129910550479417964) by {
        lemma_pow_double(37, 315, 1391827962332503923);
    }
    assert(pow(37, 1260) % (P as int) == 517453763117721126) by {
        lemma_pow_double(37, 630, 2129910550479417964);
    }
    assert(pow(37, 2520) % (P as int) == 2092542480037908298) by {
        lemma_pow_double(37, 1260, 517453763117721126);
    }
    assert(pow(37, 5041) % (P as int) == 1749199387056043345) by {
        lemma_pow_double_plus_one(37, 2520, 2092542480037908298);
    }
    assert(pow(37, 10082) % (P as int) == 2116837273049637694) by {
        lemma_pow_double(37, 5041, 1749199387056043345);
    }
    assert(pow(37, 20164) % (P as int) == 1831752314570369949) by {
        lemma_pow_double(37, 10082, 2116837273049637694);
    }
    assert(pow(37, 40329) % (P as int) == 322249982928942277) by {
        lemma_pow_double_plus_one(37, 20164, 1831752314570369949);
    }
    assert(pow(37, 80659) % (P as int) == 1883370340267853730) by {
        lemma_pow_double_plus_one(37, 40329, 322249982928942277);
    }
    assert(pow(37, 161319) % (P as int) == 357530930724110154) by {
        lemma_pow_double_plus_one(37, 80659, 1883370340267853730);
    }
    assert(pow(37, 322638) % (P as int) == 1453471050645342166) by {
        lemma_pow_double(37, 161319, 357530930724110154);
    }
    assert(pow(37, 645277) % (P as int) == 104331027905246157) by {
        lemma_pow_double_plus_one(37, 322638, 1453471050645342166);
    }
    assert(pow(37, 1290555) % (P as int) == 1215360981048284893) by {
        lemma_pow_double_plus_one(37, 645277, 104331027905246157);
    }
    assert(pow(37, 2581110) % (P as int) == 1854278429927242186) by {
        lemma_pow_double(37, 1290555, 1215360981048284893);
    }
    assert(pow(37, 5162220) % (P as int) == 1814386234248685992) by {
        lemma_pow_double(37, 2581110, 1854278429927242186);
    }
    assert(pow(37, 10324440) % (P as int) == 52216996662813566) by {
        lemma_pow_double(37, 5162220, 1814386234248685992);
    }
    assert(pow(37, 20648881) % (P as int) == 320479039138613190) by {
        lemma_pow_double_plus_one(37, 10324440, 52216996662813566);
    }
    assert(pow(37, 41297762) % (P as int) == 2186252600791618047) by {
        lemma_pow_double(37, 20648881, 320479039138613190);
    }
    assert(pow(37, 82595524) % (P as int) == 2140039573973225700) by {
        lemma_pow_double(37, 41297762, 2186252600791618047);
    }
    assert(pow(37, 165191049) % (P as int) == 775757113446050456) by {
        lemma_pow_double_plus_one(37, 82595524, 2140039573973225700);
    }
    assert(pow(37, 330382099) % (P as int) == 2301557782064692903) by {
        lemma_pow_double_plus_one(37, 165191049, 775757113446050456);
    }
    assert(pow(37, 660764199) % (P as int) == 1708180591397925930) by {
        lemma_pow_double_plus_one(37, 330382099, 2301557782064692903);
    }
    assert(pow(37, 1321528398) % (P as int) == 1474136660016468244) by {
        lemma_pow_double(37, 660764199, 1708180591397925930);
    }
    assert(pow(37, 2643056797) % (P as int) == 1955552616238515249) by {
        lemma_pow_double_plus_one(37, 1321528398, 1474136660016468244);
    }
    assert(pow(37, 5286113595) % (P as int) == 1584815430392675813) by {
        lemma_pow_double_plus_one(37, 2643056797, 1955552616238515249);
    }
    assert(pow(37, 10572227190) % (P as int) == 1313607248510892221) by {
        lemma_pow_double(37, 5286113595, 1584815430392675813);
    }
    assert(pow(37, 21144454380) % (P as int) == 1821121345429207896) by {
        lemma_pow_double(37, 10572227190, 1313607248510892221);
    }
    assert(pow(37, 42288908760) % (P as int) == 2006575309144750265) by {
        lemma_pow_double(37, 21144454380, 1821121345429207896);
    }
    assert(pow(37, 84577817521) % (P as int) == 1811060585523275782) by {
        lemma_pow_double_plus_one(37, 42288908760, 2006575309144750265);
    }
    assert(pow(37, 169155635042) % (P as int) == 1008254015338213925) by {
        lemma_pow_double(37, 84577817521, 1811060585523275782);
    }
    assert(pow(37, 338311270084) % (P as int) == 2072409115555876515) by {
        lemma_pow_double(37, 169155635042, 1008254015338213925);
    }
    assert(pow(37, 676622540169) % (P as int) == 1803297852659617165) by {
        lemma_pow_double_plus_one(37, 338311270084, 2072409115555876515);
    }
    assert(pow(37, 1353245080339) % (P as int) == 1996187280930264497) by {
        lemma_pow_double_plus_one(37, 676622540169, 1803297852659617165);
    }
    assert(pow(37, 2706490160679) % (P as int) == 1715529329136554471) by {
        lemma_pow_double_plus_one(37, 1353245080339, 1996187280930264497);
    }
    assert(pow(37, 5412980321358) % (P as int) == 251557387226495043) by {
        lemma_pow_double(37, 2706490160679, 1715529329136554471);
    }
    assert(pow(37, 10825960642717) % (P as int) == 170645822325267524) by {
        lemma_pow_double_plus_one(37, 5412980321358, 251557387226495043);
    }
    assert(pow(37, 21651921285435) % (P as int) == 1337415917927985289) by {
        lemma_pow_double_plus_one(37, 10825960642717, 170645822325267524);
    }
    assert(pow(37, 43303842570870) % (P as int) == 1563811603622147650) by {
        lemma_pow_double(37, 21651921285435, 1337415917927985289);
    }
    assert(pow(37, 86607685141740) % (P as int) == 281412780432912770) by {
        lemma_pow_double(37, 43303842570870, 1563811603622147650);
    }
    assert(pow(37, 173215370283480) % (P as int) == 185707662480029622) by {
        lemma_pow_double(37, 86607685141740, 281412780432912770);
    }
    assert(pow(37, 346430740566961) % (P as int) == 190478289898679032) by {
        lemma_pow_double_plus_one(37, 173215370283480, 185707662480029622);
    }
    assert(pow(37, 692861481133922) % (P as int) == 97310095717551342) by {
        lemma_pow_double(37, 346430740566961, 190478289898679032);
    }
    assert(pow(37, 1385722962267844) % (P as int) == 240770727365476191) by {
        lemma_pow_double(37, 692861481133922, 97310095717551342);
    }
    assert(pow(37, 2771445924535689) % (P as int) == 1039081179817346827) by {
        lemma_pow_double_plus_one(37, 1385722962267844, 240770727365476191);
    }
    assert(pow(37, 5542891849071379) % (P as int) == 1629220422872309223) by {
        lemma_pow_double_plus_one(37, 2771445924535689, 1039081179817346827);
    }
    assert(pow(37, 11085783698142759) % (P as int) == 302931652638852063) by {
        lemma_pow_double_plus_one(37, 5542891849071379, 1629220422872309223);
    }
    assert(pow(37, 22171567396285518) % (P as int) == 1609992928602734030) by {
        lemma_pow_double(37, 11085783698142759, 302931652638852063);
    }
    assert(pow(37, 44343134792571037) % (P as int) == 1228636871493548134) by {
        lemma_pow_double_plus_one(37, 22171567396285518, 1609992928602734030);
    }
    assert(pow(37, 88686269585142075) % (P as int) == 1445543640608206701) by {
        lemma_pow_double_plus_one(37, 44343134792571037, 1228636871493548134);
    }
    assert(pow(37, 177372539170284150) % (P as int) == 1032504562576723207) by {
        lemma_pow_double(37, 88686269585142075, 1445543640608206701);
    }
}

/// `37^((p-1)/31) != 1 (mod p)`, by square-and-multiply.
proof fn lemma_generator_power_over_31()
    ensures
        pow(37, ((P - 1) / 31) as nat) % (P as int) == 484083891529811867,
{
    lemma_pow1(37);
    assert(pow(37, 1) % (P as int) == 37);
    assert(pow(37, 2) % (P as int) == 1369) by {
        lemma_pow_double(37, 1, 37);
    }
    assert(pow(37, 4) % (P as int) == 1874161) by {
        lemma_pow_double(37, 2, 1369);
    }
    assert(pow(37, 8) % (P as int) == 3512479453921) by {
        lemma_pow_double(37, 4, 1874161);
    }
    assert(pow(37, 16) % (P as int) == 2048012909902302799) by {
        lemma_pow_double(37, 8, 3512479453921);
    }
    assert(pow(37, 33) % (P as int) == 2166288977810054328) by {
        lemma_pow_double_plus_one(37, 16, 2048012909902302799);
    }
    assert(pow(37, 66) % (P as int) == 1527663442908431533) by {
        lemma_pow_double(37, 33, 2166288977810054328);
    }
    assert(pow(37, 132) % (P as int) == 1697957044909405622) by {
        lemma_pow_double(37, 66, 1527663442908431533);
    }
    assert(pow(37, 264) % (P as int) == 1770736616454408763) by {
        lemma_pow_double(37, 132, 1697957044909405622);
    }
    assert(pow(37, 528) % (P as int) == 1841832041624780029) by {
        lemma_pow_double(37, 264, 1770736616454408763);
    }
    assert(pow(37, 1057) % (P as int) == 2270998359986834751) by {
        lemma_pow_double_plus_one(37, 528, 1841832041624780029);
    }
    assert(pow(37, 2114) % (P as int) == 383777470768767572) by {
        lemma_pow_double(37, 1057, 2270998359986834751);
    }
    assert(pow(37, 4228) % (P as int) == 1247246905716300463) by {
        lemma_pow_double(37, 2114, 383777470768767572);
    }
    assert(pow(37, 8456) % (P as int) == 531184808955283233) by {
        lemma_pow_double(37, 4228, 1247246905716300463);
    }
    assert(pow(37, 16912) % (P as int) == 1778766330295578444) by {
        lemma_pow_double(37, 8456, 531184808955283233);
    }
    assert(pow(37, 33825) % (P as int) == 167348957700463774) by {
        lemma_pow_double_plus_one(37, 16912, 1778766330295578444);
    }
    assert(pow(37, 67650) % (P as int) == 105149161975553391) by {
        lemma_pow_double(37, 33825, 167348957700463774);
    }
    assert(pow(37, 135300) % (P as int) == 1320681831012921122) by {
        lemma_pow_double(37, 67650, 105149161975553391);
    }
    assert(pow(37, 270600) % (P as int) == 2141973794995425617) by {
        lemma_pow_double(37, 135300, 1320681831012921122);
    }
    assert(pow(37, 541200) % (P as int) == 1757027148018525181) by {
        lemma_pow_double(37, 270600, 2141973794995425617);
    }
    assert(pow(37, 1082401) % (P as int) == 1591872804477563524) by {
        lemma_pow_double_plus_one(37, 541200, 1757027148018525181);
    }
    assert(pow(37, 2164802) % (P as int) == 207481386931969857) by {
        lemma_pow_double(37, 1082401, 1591872804477563524);
    }
    assert(pow(37, 4329604) % (P as int) == 1293616430510614620) by {
        lemma_pow_double(37, 2164802, 207481386931969857);
    }
    assert(pow(37, 8659208) % (P as int) == 1381255431965279002) by {
        lemma_pow_double(37, 4329604, 1293616430510614620);
    }
    assert(pow(37, 17318416) % (P as int) == 2060395795810129725) by {
        lemma_pow_double(37, 8659208, 1381255431965279002);
    }
    assert(pow(37, 34636833) % (P as int) == 925108281314139667) by {
        lemma_pow_double_plus_one(37, 17318416, 2060395795810129725);
    }
    assert(pow(37, 69273666) % (P as int) == 772502744357113388) by {
        lemma_pow_double(37, 34636833, 925108281314139667);
    }
    assert(pow(37, 138547332) % (P as int) == 415852372725457210) by {
        lemma_pow_double(37, 69273666, 772502744357113388);
    }
    assert(pow(37, 277094664) % (P as int) == 2154426754225061081) by {
        lemma_pow_double(37, 138547332, 415852372725457210);
    }
    assert(pow(37, 554189328) % (P as int) == 2031729985379159233) by {
        lemma_pow_double(37, 277094664, 2154426754225061081);
    }
    assert(pow(37, 1108378657) % (P as int) == 798714873386485544) by {
        lemma_pow_double_plus_one(37, 554189328, 2031729985379159233);
    }
    assert(pow(37, 2216757314) % (P as int) == 293109258917679546) by {
        lemma_pow_double(37, 1108378657, 798714873386485544);
    }
    assert(pow(37, 4433514628) % (P as int) == 789645259658297330) by {
        lemma_pow_double(37, 2216757314, 293109258917679546);
    }
    assert(pow(37, 8867029256) % (P as int) == 312537264855695216) by {
        lemma_pow_double(37, 4433514628, 789645259658297330);
    }
    assert(pow(37, 17734058512) % (P as int) == 1068040130857115079) by {
        lemma_pow_double(37, 8867029256, 312537264855695216);
    }
    assert(pow(37, 35468117025) % (P as int) == 1270392129180948775) by {
        lemma_pow_double_plus_one(37, 17734058512, 1068040130857115079);
    }
    assert(pow(37, 70936234050) % (P as int) == 1202692236257763325) by {
        lemma_pow_double(37, 35468117025, 1270392129180948775);
    }
    assert(pow(37, 141872468100) % (P as int) == 1760919366359934738) by {
        lemma_pow_double(37, 70936234050, 1202692236257763325);
    }
    assert(pow(37, 283744936200) % (P as int) == 1451836919962698950) by {
        lemma_pow_double(37, 141872468100, 1760919366359934738);
    }
    assert(pow(37, 567489872400) % (P as int) == 768265459749896282) by {
        lemma_pow_double(37, 283744936200, 1451836919962698950);
    }
    assert(pow(37, 1134979744801) % (P as int) == 1328749747719066753) by {
        lemma_pow_double_plus_one(37, 567489872400, 768265459749896282);
    }
    assert(pow(37, 2269959489602) % (P as int) == 344447306660207322) by {
        lemma_pow_double(37, 1134979744801, 1328749747719066753);
    }
    assert(pow(37, 4539918979204) % (P as int) == 1895351187208706988) by {
        lemma_pow_double(37, 2269959489602, 344447306660207322);
    }
    assert(pow(37, 9079837958408) % (P as int) == 1564954140566490745) by {
        lemma_pow_double(37, 4539918979204, 1895351187208706988);
    }
    assert(pow(37, 18159675916816) % (P as int) == 193353082106618050) by {
        lemma_pow_double(37, 9079837958408, 1564954140566490745);
    }
    assert(pow(37, 36319351833633) % (P as int) == 1045148407334167102) by {
        lemma_pow_double_plus_one(37, 18159675916816, 193353082106618050);
    }
    assert(pow(37, 72638703667266) % (P as int) == 789523400171074996) by {
        lemma_pow_double(37, 36319351833633, 1045148407334167102);
    }
    assert(pow(37, 145277407334532) % (P as int) == 1919384983088160729) by {
        lemma_pow_double(37, 72638703667266, 789523400171074996);
    }
    assert(pow(37, 290554814669064) % (P as int) == 1944991342902115162) by {
        lemma_pow_double(37, 145277407334532, 1919384983088160729);
    }
    assert(pow(37, 581109629338128) % (P as int) == 1296149603466438272) by {
        lemma_pow_double(37, 290554814669064, 1944991342902115162);
    }
    assert(pow(37, 1162219258676257) % (P as int) == 1456438557475723704) by {
        lemma_pow_double_plus_one(37, 581109629338128, 1296149603466438272);
    }
    assert(pow(37, 2324438517352514) % (P as int) == 1874007843370815560) by {
        lemma_pow_double(37, 1162219258676257, 1456438557475723704);
    }
    assert(pow(37, 4648877034705028) % (P as int) == 646757903979545203) by {
        lemma_pow_double(37, 2324438517352514, 1874007843370815560);
    }
    assert(pow(37, 9297754069410056) % (P as int) == 1177197917893952599) by {
        lemma_pow_double(37, 4648877034705028, 646757903979545203);
    }
    assert(pow(37, 18595508138820112) % (P as int) == 946354789294685549) by {
        lemma_pow_double(37, 9297754069410056, 1177197917893952599);
    }
    assert(pow(37, 37191016277640225) % (P as int) == 459707093939892694) by {
        lemma_pow_double_plus_one(37, 18595508138820112, 946354789294685549);
    }
    assert(pow(37, 74382032555280450) % (P as int) == 484083891529811867) by {
        lemma_pow_double(37, 37191016277640225, 459707093939892694);
    }
}

/// `37^((p-1)/41) != 1 (mod p)`, by square-and-multiply.
proof fn lemma_generator_power_over_41()
    ensures
        pow(37, ((P - 1) / 41) as nat) % (P as int) == 1562651311446036838,
{
    lemma_pow1(37);
    assert(pow(37, 1) % (P as int) == 37);
    assert(pow(37, 3) % (P as int) == 50653) by {
        lemma_pow_double_plus_one(37, 1, 37);
    }
    assert(pow(37, 6) % (P as int) == 2565726409) by {
        lemma_pow_double(37, 3, 50653);
    }
    assert(pow(37, 12) % (P as int) == 1971265987412647379) by {
        lemma_pow_double(37, 6, 2565726409);
    }
    assert(pow(37, 24) % (P as int) == 398663858489942875) by {
        lemma_pow_double(37, 12, 1971265987412647379);
    }
    assert(pow(37, 49) % (P as int) == 1253154211215440207) by {
        lemma_pow_double_plus_one(37, 24, 398663858489942875);
    }
    assert(pow(37, 99) % (P as int) == 713382385997058412) by {
        lemma_pow_double_plus_one(37, 49, 1253154211215440207);
    }
    assert(pow(37, 199) % (P as int) == 1280571195406621519) by {
        lemma_pow_double_plus_one(37, 99, 713382385997058412);
    }
    assert(pow(37, 399) % (P as int) == 447693314845949267) by {
        lemma_pow_double_plus_one(37, 199, 1280571195406621519);
    }
    assert(pow(37, 799) % (P as int) == 130349614386036013) by {
        lemma_pow_double_plus_one(37, 399, 447693314845949267);
    }
    assert(pow(37, 1598) % (P as int) == 1928414337313258967) by {
        lemma_pow_double(37, 799, 130349614386036013);
    }
    assert(pow(37, 3196) % (P as int) == 219284513808312053) by {
        lemma_pow_double(37, 1598, 1928414337313258967);
    }
    assert(pow(37, 6393) % (P as int) == 1650923011892747725) by {
        lemma_pow_double_plus_one(37, 3196, 219284513808312053);
    }
    assert(pow(37, 12787) % (P as int) == 1869859796848899022) by {
        lemma_pow_double_plus_one(37, 6393, 1650923011892747725);
    }
    assert(pow(37, 25575) % (P as int) == 1687183653783263753) by {
        lemma_pow_double_plus_one(37, 12787, 1869859796848899022);
    }
    assert(pow(37, 51150) % (P as int) == 1694490217473059922) by {
        lemma_pow_double(37, 25575, 1687183653783263753);
    }
    assert(pow(37, 102300) % (P as int) == 757528119712041489) by {
        lemma_pow_double(37, 51150, 1694490217473059922);
    }
    assert(pow(37, 204600) % (P as int) == 1760593197219293682) by {
        lemma_pow_double(37, 102300, 757528119712041489);
    }
    assert(pow(37, 409200) % (P as int) == 1892778723120112520) by {
        lemma_pow_double(37, 204600, 1760593197219293682);
    }
    assert(pow(37, 818400) % (P as int) == 75927683510047834) by {
        lemma_pow_double(37, 409200, 1892778723120112520);
    }
    assert(pow(37, 1636801) % (P as int) == 46320796107690425) by {
        lemma_pow_double_plus_one(37, 818400, 75927683510047834);
    }
    assert(pow(37, 3273603) % (P as int) == 1923927486642197054) by {
        lemma_pow_double_plus_one(37, 1636801, 46320796107690425);
    }
    assert(pow(37, 6547206) % (P as int) == 279978600320785492) by {
        lemma_pow_double(37, 3273603, 1923927486642197054);
    }
    assert(pow(37, 13094412) % (P as int) == 942568288739213058) by {
        lemma_pow_double(37, 6547206, 279978600320785492);
    }
    assert(pow(37, 26188824) % (P as int) == 1848670390243138195) by {
        lemma_pow_double(37, 13094412, 942568288739213058);
    }
    assert(pow(37, 52377649) % (P as int) == 1924007716517896129) by {
        lemma_pow_double_plus_one(37, 26188824, 1848670390243138195);
    }
    assert(pow(37, 104755299) % (P as int) == 330857899401711180) by {
        lemma_pow_double_plus_one(37, 52377649, 1924007716517896129);
    }
    assert(pow(37, 209510599) % (P as int) == 741346349486903901) by {
        lemma_pow_double_plus_one(37, 104755299, 330857899401711180);
    }
    assert(pow(37, 419021199) % (P as int) == 1495229894424680776) by {
        lemma_pow_double_plus_one(37, 209510599, 741346349486903901);
    }
    assert(pow(37, 838042399) % (P as int) == 476740428229829238) by {
        lemma_pow_double_plus_one(37, 419021199, 1495229894424680776);
    }
    assert(pow(37, 1676084798) % (P as int) == 1868386856157844665) by {
        lemma_pow_double(37, 838042399, 476740428229829238);
    }
    assert(pow(37, 3352169596) % (P as int) == 676129879129388771) by {
        lemma_pow_double(37, 1676084798, 1868386856157844665);
    }
    assert(pow(37, 6704339193) % (P as int) == 1924340502366232038) by {
        lemma_pow_double_plus_one(37, 3352169596, 676129879129388771);
    }
    assert(pow(37, 13408678387) % (P as int) == 754477826986342222) by {
        lemma_pow_double_plus_one(37, 6704339193, 1924340502366232038);
    }
    assert(pow(37, 26817356775) % (P as int) == 1494666810550199206) by {
        lemma_pow_double_plus_one(37, 13408678387, 754477826986342222);
    }
    assert(pow(37, 53634713550) % (P as int) == 408742850539445589) by {
        lemma_pow_double(37, 26817356775, 1494666810550199206);
    }
    assert(pow(37, 107269427100) % (P as int) == 2249397665653771420) by {
        lemma_pow_double(37, 53634713550, 408742850539445589);
    }
    assert(pow(37, 214538854200) % (P as int) == 586375320340701312) by {
        lemma_pow_double(37, 107269427100, 2249397665653771420);
    }
    assert(pow(37, 429077708400) % (P as int) == 66689224696771530) by {
        lemma_pow_double(37, 214538854200, 586375320340701312);
    }
    assert(pow(37, 858155416800) % (P as int) == 1975295031131489547) by {
        lemma_pow_double(37, 429077708400, 66689224696771530);
    }
    assert(pow(37, 1716310833601) % (P as int) == 1292041858439856068) by {
        lemma_pow_double_plus_one(37, 858155416800, 1975295031131489547);
    }
    assert(pow(37, 3432621667203) % (P as int) == 90756861761671894) by {
        lemma_pow_double_plus_one(37, 1716310833601, 1292041858439856068);
    }
    assert(pow(37, 6865243334406) % (P as int) == 565597554396461301) by {
        lemma_pow_double(37, 3432621667203, 90756861761671894);
    }
    assert(pow(37, 13730486668812) % (P as int) == 473806973239797212) by {
        lemma_pow_double(37, 6865243334406, 565597554396461301);
    }
    assert(pow(37, 27460973337624) % (P as int) == 1168128104625737366) by {
        lemma_pow_double(37, 13730486668812, 473806973239797212);
    }
    assert(pow(37, 54921946675249) % (P as int) == 145686032112531244) by {
        lemma_pow_double_plus_one(37, 27460973337624, 1168128104625737366);
    }
    assert(pow(37, 109843893350499) % (P as int) == 275180661742038372) by {
        lemma_pow_double_plus_one(37, 54921946675249, 145686032112531244);
    }
    assert(pow(37, 219687786700999) % (P as int) == 142296816424993714) by {
        lemma_pow_double_plus_one(37, 109843893350499, 275180661742038372);
    }
    assert(pow(37, 439375573401999) % (P as int) == 621197004345292522) by {
        lemma_pow_double_plus_one(37, 219687786700999, 142296816424993714);
    }
    assert(pow(37, 878751146803999) % (P as int) == 1454763020008003839) by {
        lemma_pow_double_plus_one(37, 439375573401999, 621197004345292522);
    }
    assert(pow(37, 1757502293607998) % (P as int) == 411279861511608367) by {
        lemma_pow_double(37, 878751146803999, 1454763020008003839);
    }
    assert(pow(37, 3515004587215996) % (P as int) == 496148108913520374) by {
        lemma_pow_double(37, 1757502293607998, 411279861511608367);
    }
    assert(pow(37, 7030009174431993) % (P as int) == 2283548272205669499) by {
        lemma_pow_double_plus_one(37, 3515004587215996, 496148108913520374);
    }
    assert(pow(37, 14060018348863987) % (P as int) == 2038003554434167336) by {
        lemma_pow_double_plus_one(37, 7030009174431993, 2283548272205669499);
    }
    assert(pow(37, 28120036697727975) % (P as int) == 1898874625507073112) by {
        lemma_pow_double_plus_one(37, 14060018348863987, 2038003554434167336);
    }
    assert(pow(37, 56240073395455950) % (P as int) == 1562651311446036838) by {
        lemma_pow_double(37, 28120036697727975, 1898874625507073112);
    }
}

/// `37^((p-1)/61) != 1 (mod p)`, by square-and-multiply.
proof fn lemma_generator_power_over_61()
    ensures
        pow(37, ((P - 1) / 61) as nat) % (P as int) == 35184372088832,
{
    lemma_pow1(37);
    assert(pow(37, 1) % (P as int) == 37);
    assert(pow(37, 2) % (P as int) == 1369) by {
        lemma_pow_double(37, 1, 37);
    }
    assert(pow(37, 4) % (P as int) == 1874161) by {
        lemma_pow_double(37, 2, 1369);
    }
    assert(pow(37, 8) % (P as int) == 3512479453921) by {
        lemma_pow_double(37, 4, 1874161);
    }
    assert(pow(37, 16) % (P as int) == 2048012909902302799) by {
        lemma_pow_double(37, 8, 3512479453921);
    }
    assert(pow(37, 33) % (P as int) == 2166288977810054328) by {
        lemma_pow_double_plus_one(37, 16, 2048012909902302799);
    }
    assert(pow(37, 67) % (P as int) == 1183315166483311897) by {
        lemma_pow_double_plus_one(37, 33, 2166288977810054328);
    }
    assert(pow(37, 134) % (P as int) == 213441193572793910) by {
        lemma_pow_double(37, 67, 1183315166483311897);
    }
    assert(pow(37, 268) % (P as int) == 156151158795493260) by {
        lemma_pow_double(37, 134, 213441193572793910);
    }
    assert(pow(37, 537) % (P as int) == 957141291894918330) by {
        lemma_pow_double_plus_one(37, 268, 156151158795493260);
    }
    assert(pow(37, 1074) % (P as int) == 1679601158863909361) by {
        lemma_pow_double(37, 537, 957141291894918330);
    }
    assert(pow(37, 2148) % (P as int) == 1754931456696949085) by {
        lemma_pow_double(37, 1074, 1679601158863909361);
    }
    assert(pow(37, 4297) % (P as int) == 410389727592846181) by {
        lemma_pow_double_plus_one(37, 2148, 1754931456696949085);
    }
    assert(pow(37, 8594) % (P as int) == 988107137094789728) by {
        lemma_pow_double(37, 4297, 410389727592846181);
    }
    assert(pow(37, 17189) % (P as int) == 2220825456925301953) by {
        lemma_pow_double_plus_one(37, 8594, 988107137094789728);
    }
    assert(pow(37, 34379) % (P as int) == 2163348570006373358) by {
        lemma_pow_double_plus_one(37, 17189, 2220825456925301953);
    }
    assert(pow(37, 68759) % (P as int) == 527144738755651022) by {
        lemma_pow_double_plus_one(37, 34379, 2163348570006373358);
    }
    assert(pow(37, 137518) % (P as int) == 2110217161857988208) by {
        lemma_pow_double(37, 68759, 527144738755651022);
    }
    assert(pow(37, 275036) % (P as int) == 1918972764837995116) by {
        lemma_pow_double(37, 137518, 2110217161857988208);
    }
    assert(pow(37, 550072) % (P as int) == 687323875882474714) by {
        lemma_pow_double(37, 275036, 1918972764837995116);
    }
    assert(pow(37, 1100145) % (P as int) == 584164033613811636) by {
        lemma_pow_double_plus_one(37, 550072, 687323875882474714);
    }
    assert(pow(37, 2200290) % (P as int) == 188538334095871618) by {
        lemma_pow_double(37, 1100145, 584164033613811636);
    }
    assert(pow(37, 4400581) % (P as int) == 247703079166319074) by {
        lemma_pow_double_plus_one(37, 2200290, 188538334095871618);
    }
    assert(pow(37, 8801162) % (P as int) == 413753822477507423) by {
        lemma_pow_double(37, 4400581, 247703079166319074);
    }
    assert(pow(37, 17602324) % (P as int) == 1885629141519779004) by {
        lemma_pow_double(37, 8801162, 413753822477507423);
    }
    assert(pow(37, 35204649) % (P as int) == 1044507673453721203) by {
        lemma_pow_double_plus_one(37, 17602324, 1885629141519779004);
    }
    assert(pow(37, 70409299) % (P as int) == 2377414092535932) by {
        lemma_pow_double_plus_one(37, 35204649, 1044507673453721203);
    }
    assert(pow(37, 140818599) % (P as int) == 1801089224994533444) by {
        lemma_pow_double_plus_one(37, 70409299, 2377414092535932);
    }
    assert(pow(37, 281637199) % (P as int) == 1032981113192012775) by {
        lemma_pow_double_plus_one(37, 140818599, 1801089224994533444);
    }
    assert(pow(37, 563274399) % (P as int) == 995437048177928506) by {
        lemma_pow_double_plus_one(37, 281637199, 1032981113192012775);
    }
    assert(pow(37, 1126548798) % (P as int) == 729273931602840556) by {
        lemma_pow_double(37, 563274399, 995437048177928506);
    }
    assert(pow(37, 2253097597) % (P as int) == 290440402385712906) by {
        lemma_pow_double_plus_one(37, 1126548798, 729273931602840556);
    }
    assert(pow(37, 4506195195) % (P as int) == 385107666014138564) by {
        lemma_pow_double_plus_one(37, 2253097597, 290440402385712906);
    }
    assert(pow(37, 9012390391) % (P as int) == 363377260186073550) by {
        lemma_pow_double_plus_one(37, 4506195195, 385107666014138564);
    }
    assert(pow(37, 18024780783) % (P as int) == 1102903864824655815) by {
        lemma_pow_double_plus_one(37, 9012390391, 363377260186073550);
    }
    assert(pow(37, 36049561566) % (P as int) == 1841344606183256171) by {
        lemma_pow_double(37, 18024780783, 1102903864824655815);
    }
    assert(pow(37, 72099123132) % (P as int) == 911184203840234984) by {
        lemma_pow_double(37, 36049561566, 1841344606183256171);
    }
    assert(pow(37, 144198246265) % (P as int) == 345791200442962668) by {
        lemma_pow_double_plus_one(37, 72099123132, 911184203840234984);
    }
    assert(pow(37, 288396492531) % (P as int) == 1356963729195039729) by {
        lemma_pow_double_plus_one(37, 144198246265, 345791200442962668);
    }
    assert(pow(37, 576792985062) % (P as int) == 1609429910656894110) by {
        lemma_pow_double(37, 288396492531, 1356963729195039729);
    }
    assert(pow(37, 1153585970125) % (P as int) == 421737376927670018) by {
        lemma_pow_double_plus_one(37, 576792985062, 1609429910656894110);
    }
    assert(pow(37, 2307171940251) % (P as int) == 1181731694210734698) by {
        lemma_pow_double_plus_one(37, 1153585970125, 421737376927670018);
    }
    assert(pow(37, 4614343880502) % (P as int) == 466962266829811585) by {
        lemma_pow_double(37, 2307171940251, 1181731694210734698);
    }
    assert(pow(37, 9228687761005) % (P as int) == 2248483136618441896) by {
        lemma_pow_double_plus_one(37, 4614343880502, 466962266829811585);
    }
    assert(pow(37, 18457375522010) % (P as int) == 2150962671850484898) by {
        lemma_pow_double(37, 9228687761005, 2248483136618441896);
    }
    assert(pow(37, 36914751044020) % (P as int) == 812941661938990639) by {
        lemma_pow_double(37, 18457375522010, 2150962671850484898);
    }
    assert(pow(37, 73829502088040) % (P as int) == 1987069784265602190) by {
        lemma_pow_double(37, 36914751044020, 812941661938990639);
    }
    assert(pow(37, 147659004176081) % (P as int) == 909303406603622929) by {
        lemma_pow_double_plus_one(37, 73829502088040, 1987069784265602190);
    }
    assert(pow(37, 295318008352163) % (P as int) == 1618894347188990772) by {
        lemma_pow_double_plus_one(37, 147659004176081, 909303406603622929);
    }
    assert(pow(37, 590636016704327) % (P as int) == 400923851680376097) by {
        lemma_pow_double_plus_one(37, 295318008352163, 1618894347188990772);
    }
    assert(pow(37, 1181272033408654) % (P as int) == 1296737315491201034) by {
        lemma_pow_double(37, 590636016704327, 400923851680376097);
    }
    assert(pow(37, 2362544066817309) % (P as int) == 405263573606771781) by {
        lemma_pow_double_plus_one(37, 1181272033408654, 1296737315491201034);
    }
    assert(pow(37, 4725088133634618) % (P as int) == 2194542735180687571) by {
        lemma_pow_double(37, 2362544066817309, 405263573606771781);
    }
    assert(pow(37, 9450176267269237) % (P as int) == 890332301824759925) by {
        lemma_pow_double_plus_one(37, 4725088133634618, 2194542735180687571);
    }
    assert(pow(37, 18900352534538475) % (P as int) == 2296835809958952959) by {
        lemma_pow_double_plus_one(37, 9450176267269237, 890332301824759925);
    }
    assert(pow(37, 37800705069076950) % (P as int) == 35184372088832) by {
        lemma_pow_double(37, 18900352534538475, 2296835809958952959);
    }
}

/// `37^((p-1)/151) != 1 (mod p)`, by square-and-multiply.
proof fn lemma_generator_power_over_151()
    ensures
        pow(37, ((P - 1) / 151) as nat) % (P as int) == 1433721343585656393,
{
    lemma_pow1(37);
    assert(pow(37, 1) % (P as int) == 37);
    assert(pow(37, 3) % (P as int) == 50653) by {
        lemma_pow_double_plus_one(37, 1, 37);
    }
    assert(pow(37, 6) % (P as int) == 2565726409) by {
        lemma_pow_double(37, 3, 50653);
    }
    assert(pow(37, 13) % (P as int) == 1455708248643440542) by {
        lemma_pow_double_plus_one(37, 6, 2565726409);
    }
    assert(pow(37, 27) % (P as int) == 1253192406758518468) by {
        lemma_pow_double_plus_one(37, 13, 1455708248643440542);
    }
    assert(pow(37, 54) % (P as int) == 1091349452027953358) by {
        lemma_pow_double(37, 27, 1253192406758518468);
    }
    assert(pow(37, 108) % (P as int) == 997920042730791870) by {
        lemma_pow_double(37, 54, 1091349452027953358);
    }
    assert(pow(37, 217) % (P as int) == 1077878270572361752) by {
        lemma_pow_double_plus_one(37, 108, 997920042730791870);
    }
    assert(pow(37, 434) % (P as int) == 385245501143562693) by {
        lemma_pow_double(37, 217, 1077878270572361752);
    }
    assert(pow(37, 868) % (P as int) == 376923711229537248) by {
        lemma_pow_double(37, 434, 385245501143562693);
    }
    assert(pow(37, 1736) % (P as int) == 335101052591312049) by {
        lemma_pow_double(37, 868, 376923711229537248);
    }
    assert(pow(37, 3472) % (P as int) == 37728920620822630) by {
        lemma_pow_double(37, 1736, 335101052591312049);
    }
    assert(pow(37, 6944) % (P as int) == 2228552861915488798) by {
        lemma_pow_double(37, 3472, 37728920620822630);
    }
    assert(pow(37, 13888) % (P as int) == 921623718492395228) by {
        lemma_pow_double(37, 6944, 2228552861915488798);
    }
    assert(pow(37, 27776) % (P as int) == 672305038495397967) by {
        lemma_pow_double(37, 13888, 921623718492395228);
    }
    assert(pow(37, 55553) % (P as int) == 1418872290238940714) by {
        lemma_pow_double_plus_one(37, 27776, 672305038495397967);
    }
    assert(pow(37, 111107) % (P as int) == 1669257937216012233) by {
        lemma_pow_double_plus_one(37, 55553, 1418872290238940714);
    }
    assert(pow(37, 222214) % (P as int) == 2074582478826140785) by {
        lemma_pow_double(37, 111107, 1669257937216012233);
    }
    assert(pow(37, 444429) % (P as int) == 256175379413726075) by {
        lemma_pow_double_plus_one(37, 222214, 2074582478826140785);
    }
    assert(pow(37, 888859) % (P as int) == 314151073509115673) by {
        lemma_pow_double_plus_one(37, 444429, 256175379413726075);
    }
    assert(pow(37, 1777718) % (P as int) == 1843270311929566165) by {
        lemma_pow_double(37, 888859, 314151073509115673);
    }
    assert(pow(37, 3555436) % (P as int) == 1255962243698527563) by {
        lemma_pow_double(37, 1777718, 1843270311929566165);
    }
    assert(pow(37, 7110873) % (P as int) == 1431448251701336463) by {
        lemma_pow_double_plus_one(37, 3555436, 1255962243698527563);
    }
    assert(pow(37, 14221746) % (P as int) == 1720169769625558843) by {
        lemma_pow_double(37, 7110873, 1431448251701336463);
    }
    assert(pow(37, 28443492) % (P as int) == 1967027654544662291) by {
        lemma_pow_double(37, 14221746, 1720169769625558843);
    }
    assert(pow(37, 56886984) % (P as int) == 487123809281246237) by {
        lemma_pow_double(37, 28443492, 1967027654544662291);
    }
    assert(pow(37, 113773968) % (P as int) == 2110190743308402835) by {
        lemma_pow_double(37, 56886984, 487123809281246237);
    }
    assert(pow(37, 227547936) % (P as int) == 404490060077652709) by {
        lemma_pow_double(37, 113773968, 2110190743308402835);
    }
    assert(pow(37, 455095872) % (P as int) == 438048697937724375) by {
        lemma_pow_double(37, 227547936, 404490060077652709);
    }
    assert(pow(37, 910191744) % (P as int) == 2252932632060201894) by {
        lemma_pow_double(37, 455095872, 438048697937724375);
    }
    assert(pow(37, 1820383489) % (P as int) == 2185531135547059631) by {
        lemma_pow_double_plus_one(37, 910191744, 2252932632060201894);
    }
    assert(pow(37, 3640766979) % (P as int) == 1631041166378516586) by {
        lemma_pow_double_plus_one(37, 1820383489, 2185531135547059631);
    }
    assert(pow(37, 7281533958) % (P as int) == 1013860923015364884) by {
        lemma_pow_double(37, 3640766979, 1631041166378516586);
    }
    assert(pow(37, 14563067917) % (P as int) == 2149958194760359179) by {
        lemma_pow_double_plus_one(37, 7281533958, 1013860923015364884);
    }
    assert(pow(37, 29126135835) % (P as int) == 466074777157783135) by {
        lemma_pow_double_plus_one(37, 14563067917, 2149958194760359179);
    }
    assert(pow(37, 58252271670) % (P as int) == 536697731232903470) by {
        lemma_pow_double(37, 29126135835, 466074777157783135);
    }
    assert(pow(37, 116504543340) % (P as int) == 1448669616528059213) by {
        lemma_pow_double(37, 58252271670, 536697731232903470);
    }
    assert(pow(37, 233009086681) % (P as int) == 95364367546960113) by {
        lemma_pow_double_plus_one(37, 116504543340, 1448669616528059213);
    }
    assert(pow(37, 466018173362) % (P as int) == 1105655107239133538) by {
        lemma_pow_double(37, 233009086681, 95364367546960113);
    }
    assert(pow(37, 932036346724) % (P as int) == 953472430199435278) by {
        lemma_pow_double(37, 466018173362, 1105655107239133538);
    }
    assert(pow(37, 1864072693448) % (P as int) == 753745908267135817) by {
        lemma_pow_double(37, 932036346724, 953472430199435278);
    }
    assert(pow(37, 3728145386896) % (P as int) == 86416242946414448) by {
        lemma_pow_double(37, 1864072693448, 753745908267135817);
    }
    assert(pow(37, 7456290773792) % (P as int) == 615400116022059587) by {
        lemma_pow_double(37, 3728145386896, 86416242946414448);
    }
    assert(pow(37, 14912581547584) % (P as int) == 2112679117412952014) by {
        lemma_pow_double(37, 7456290773792, 615400116022059587);
    }
    assert(pow(37, 29825163095168) % (P as int) == 1240380924626345293) by {
        lemma_pow_double(37, 14912581547584, 2112679117412952014);
    }
    assert(pow(37, 59650326190337) % (P as int) == 408254041272210791) by {
        lemma_pow_double_plus_one(37, 29825163095168, 1240380924626345293);
    }
    assert(pow(37, 119300652380675) % (P as int) == 1122611052688469264) by {
        lemma_pow_double_plus_one(37, 59650326190337, 408254041272210791);
    }
    assert(pow(37, 238601304761350) % (P as int) == 1511142429613439500) by {
        lemma_pow_double(37, 119300652380675, 1122611052688469264);
    }
    assert(pow(37, 477202609522701) % (P as int) == 2171484135340467410) by {
        lemma_pow_double_plus_one(37, 238601304761350, 1511142429613439500);
    }
    assert(pow(37, 954405219045403) % (P as int) == 1409204355254039165) by {
        lemma_pow_double_plus_one(37, 477202609522701, 2171484135340467410);
    }
    assert(pow(37, 1908810438090806) % (P as int) == 1627033447147933315) by {
        lemma_pow_double(37, 954405219045403, 1409204355254039165);
    }
    assert(pow(37, 3817620876181612) % (P as int) == 904830826465624872) by {
        lemma_pow_double(37, 1908810438090806, 1627033447147933315);
    }
    assert(pow(37, 7635241752363225) % (P as int) == 1376965901038402775) by {
        lemma_pow_double_plus_one(37, 3817620876181612, 904830826465624872);
    }
    assert(pow(37, 15270483504726450) % (P as int) == 1433721343585656393) by {
        lemma_pow_double(37, 7635241752363225, 1376965901038402775);
    }
}

/// `37^((p-1)/331) != 1 (mod p)`, by square-and-multiply.
proof fn lemma_generator_power_over_331()
    ensures
        pow(37, ((P - 1) / 331) as nat) % (P as int) == 185945230422323302,
{
    lemma_pow1(37);
    assert(pow(37, 1) % (P as int) == 37);
    assert(pow(37, 3) % (P as int) == 50653) by {
        lemma_pow_double_plus_one(37, 1, 37);
    }
    assert(pow(37, 6) % (P as int) == 2565726409) by {
        lemma_pow_double(37, 3, 50653);
    }
    assert(pow(37, 12) % (P as int) == 1971265987412647379) by {
        lemma_pow_double(37, 6, 2565726409);
    }
    assert(pow(37, 24) % (P as int) == 398663858489942875) by {
        lemma_pow_double(37, 12, 1971265987412647379);
    }
    assert(pow(37, 49) % (P as int) == 1253154211215440207) by {
        lemma_pow_double_plus_one(37, 24, 398663858489942875);
    }
    assert(pow(37, 98) % (P as int) == 1639602719609543274) by {
        lemma_pow_double(37, 49, 1253154211215440207);
    }
    assert(pow(37, 197) % (P as int) == 489390097784790261) by {
        lemma_pow_double_plus_one(37, 98, 1639602719609543274);
    }
    assert(pow(37, 395) % (P as int) == 1581628365781689195) by {
        lemma_pow_double_plus_one(37, 197, 489390097784790261);
    }
    assert(pow(37, 791) % (P as int) == 2168402905266598209) by {
        lemma_pow_double_plus_one(37, 395, 1581628365781689195);
    }
    assert(pow(37, 1583) % (P as int) == 2065047843979438749) by {
        lemma_pow_double_plus_one(37, 791, 2168402905266598209);
    }
    assert(pow(37, 3167) % (P as int) == 1632860793607410850) by {
        lemma_pow_double_plus_one(37, 1583, 2065047843979438749);
    }
    assert(pow(37, 6335) % (P as int) == 936045626837881794) by {
        lemma_pow_double_plus_one(37, 3167, 1632860793607410850);
    }
    assert(pow(37, 12671) % (P as int) == 9508277431672033) by {
        lemma_pow_double_plus_one(37, 6335, 936045626837881794);
    }
    assert(pow(37, 25343) % (P as int) == 664791449394490029) by {
        lemma_pow_double_plus_one(37, 12671, 9508277431672033);
    }
    assert(pow(37, 50686) % (P as int) == 487236098161560180) by {
        lemma_pow_double(37, 25343, 664791449394490029);
    }
    assert(pow(37, 101372) % (P as int) == 397443731981868493) by {
        lemma_pow_double(37, 50686, 487236098161560180);
    }
    assert(pow(37, 202745) % (P as int) == 478910461608333036) by {
        lemma_pow_double_plus_one(37, 101372, 397443731981868493);
    }
    assert(pow(37, 405491) % (P as int) == 1015050315073746930) by {
        lemma_pow_double_plus_one(37, 202745, 478910461608333036);
    }
    assert(pow(37, 810983) % (P as int) == 247907626428050557) by {
        lemma_pow_double_plus_one(37, 405491, 1015050315073746930);
    }
    assert(pow(37, 1621966) % (P as int) == 787350629361550336) by {
        lemma_pow_double(37, 810983, 247907626428050557);
    }
    assert(pow(37, 3243933) % (P as int) == 1429068372800960821) by {
        lemma_pow_double_plus_one(37, 1621966, 787350629361550336);
    }
    assert(pow(37, 6487866) % (P as int) == 887286010314584401) by {
        lemma_pow_double(37, 3243933, 1429068372800960821);
    }
    assert(pow(37, 12975732) % (P as int) == 835686323253738562) by {
        lemma_pow_double(37, 6487866, 887286010314584401);
    }
    assert(pow(37, 25951464) % (P as int) == 1478640314050531428) by {
        lemma_pow_double(37, 12975732, 835686323253738562);
    }
    assert(pow(37, 51902928) % (P as int) == 1079313284874010789) by {
        lemma_pow_double(37, 25951464, 1478640314050531428);
    }
    assert(pow(37, 103805856) % (P as int) == 1719990106134480839) by {
        lemma_pow_double(37, 51902928, 1079313284874010789);
    }
    assert(pow(37, 207611712) % (P as int) == 496051684216611343) by {
        lemma_pow_double(37, 103805856, 1719990106134480839);
    }
    assert(pow(37, 415223424) % (P as int) == 1813308835624495303) by {
        lemma_pow_double(37, 207611712, 496051684216611343);
    }
    assert(pow(37, 830446848) % (P as int) == 1981502825351848235) by {
        lemma_pow_double(37, 415223424, 1813308835624495303);
    }
    assert(pow(37, 1660893697) % (P as int) == 996529838252725439) by {
        lemma_pow_double_plus_one(37, 830446848, 1981502825351848235);
    }
    assert(pow(37, 3321787395) % (P as int) == 181235882177982727) by {
        lemma_pow_double_plus_one(37, 1660893697, 996529838252725439);
    }
    assert(pow(37, 6643574790) % (P as int) == 1226371963323455181) by {
        lemma_pow_double(37, 3321787395, 181235882177982727);
    }
    assert(pow(37, 13287149580) % (P as int) == 409494360453244594) by {
        lemma_pow_double(37, 6643574790, 1226371963323455181);
    }
    assert(pow(37, 26574299160) % (P as int) == 1743686887285837804) by {
        lemma_pow_double(37, 13287149580, 409494360453244594);
    }
    assert(pow(37, 53148598321) % (P as int) == 525046145002934489) by {
        lemma_pow_double_plus_one(37, 26574299160, 1743686887285837804);
    }
    assert(pow(37, 106297196642) % (P as int) == 1651396226218083413) by {
        lemma_pow_double(37, 53148598321, 525046145002934489);
    }
    assert(pow(37, 212594393285) % (P as int) == 1208767214225643481) by {
        lemma_pow_double_plus_one(37, 106297196642, 1651396226218083413);
    }
    assert(pow(37, 425188786571) % (P as int) == 1165820085208611822) by {
        lemma_pow_double_plus_one(37, 212594393285, 1208767214225643481);
    }
    assert(pow(37, 850377573143) % (P as int) == 222796501120599710) by {
        lemma_pow_double_plus_one(37, 425188786571, 1165820085208611822);
    }
    assert(pow(37, 1700755146287) % (P as int) == 2234971198286029566) by {
        lemma_pow_double_plus_one(37, 850377573143, 222796501120599710);
    }
    assert(pow(37, 3401510292575) % (P as int) == 459890315332183796) by {
        lemma_pow_double_plus_one(37, 1700755146287, 2234971198286029566);
    }
    assert(pow(37, 6803020585151) % (P as int) == 1278156668695897595) by {
        lemma_pow_double_plus_one(37, 3401510292575, 459890315332183796);
    }
    assert(pow(37, 13606041170303) % (P as int) == 2019615094440613339) by {
        lemma_pow_double_plus_one(37, 6803020585151, 1278156668695897595);
    }
    assert(pow(37, 27212082340607) % (P as int) == 314881196813803081) by {
        lemma_pow_double_plus_one(37, 13606041170303, 2019615094440613339);
    }
    assert(pow(37, 54424164681214) % (P as int) == 854694431541353119) by {
        lemma_pow_double(37, 27212082340607, 314881196813803081);
    }
    assert(pow(37, 108848329362428) % (P as int) == 693625213112729168) by {
        lemma_pow_double(37, 54424164681214, 854694431541353119);
    }
    assert(pow(37, 217696658724857) % (P as int) == 676180754569928016) by {
        lemma_pow_double_plus_one(37, 108848329362428, 693625213112729168);
    }
    assert(pow(37, 435393317449715) % (P as int) == 1899314672277124482) by {
        lemma_pow_double_plus_one(37, 217696658724857, 676180754569928016);
    }
    assert(pow(37, 870786634899431) % (P as int) == 1446730675648825058) by {
        lemma_pow_double_plus_one(37, 435393317449715, 1899314672277124482);
    }
    assert(pow(37, 1741573269798862) % (P as int) == 1073986377252543548) by {
        lemma_pow_double(37, 870786634899431, 1446730675648825058);
    }
    assert(pow(37, 3483146539597725) % (P as int) == 1148296862242708959) by {
        lemma_pow_double_plus_one(37, 1741573269798862, 1073986377252543548);
    }
    assert(pow(37, 6966293079195450) % (P as int) == 185945230422323302) by {
        lemma_pow_double(37, 3483146539597725, 1148296862242708959);
    }
}

/// `37^((p-1)/1321) != 1 (mod p)`, by square-and-multiply.
proof fn lemma_generator_power_over_1321()
    ensures
        pow(37, ((P - 1) / 1321) as nat) % (P as int) == 30210013857155493,
{
    lemma_pow1(37);
    assert(pow(37, 1) % (P as int) == 37);
    assert(pow(37, 3) % (P as int) == 50653) by {
        lemma_pow_double_plus_one(37, 1, 37);
    }
    assert(pow(37, 6) % (P as int) == 2565726409) by {
        lemma_pow_double(37, 3, 50653);
    }
    assert(pow(37, 12) % (P as int) == 1971265987412647379) by {
        lemma_pow_double(37, 6, 2565726409);
    }
    assert(pow(37, 24) % (P as int) == 398663858489942875) by {
        lemma_pow_double(37, 12, 1971265987412647379);
    }
    assert(pow(37, 49) % (P as int) == 1253154211215440207) by {
        lemma_pow_double_plus_one(37, 24, 398663858489942875);
    }
    assert(pow(37, 99) % (P as int) == 713382385997058412) by {
        lemma_pow_double_plus_one(37, 49, 1253154211215440207);
    }
    assert(pow(37, 198) % (P as int) == 1966532553541382000) by {
        lemma_pow_double(37, 99, 713382385997058412);
    }
    assert(pow(37, 396) % (P as int) == 874174303580151440) by {
        lemma_pow_double(37, 198, 1966532553541382000);
    }
    assert(pow(37, 793) % (P as int) == 923624451948833184) by {
        lemma_pow_double_plus_one(37, 396, 874174303580151440);
    }
    assert(pow(37, 1587) % (P as int) == 1462720670361678394) by {
        lemma_pow_double_plus_one(37, 793, 923624451948833184);
    }
    assert(pow(37, 3175) % (P as int) == 815192214955655648) by {
        lemma_pow_double_plus_one(37, 1587, 1462720670361678394);
    }
    assert(pow(37, 6350) % (P as int) == 621497757265893580) by {
        lemma_pow_double(37, 3175, 815192214955655648);
    }
    assert(pow(37, 12700) % (P as int) == 2198386731040081295) by {
        lemma_pow_double(37, 6350, 621497757265893580);
    }
    assert(pow(37, 25400) % (P as int) == 53350045692349326) by {
        lemma_pow_double(37, 12700, 2198386731040081295);
    }
    assert(pow(37, 50801) % (P as int) == 2265566778510025757) by {
        lemma_pow_double_plus_one(37, 25400, 53350045692349326);
    }
    assert(pow(37, 101603) % (P as int) == 2288678211812649998) by {
        lemma_pow_double_plus_one(37, 50801, 2265566778510025757);
    }
    assert(pow(37, 203206) % (P as int) == 673425718396071659) by {
        lemma_pow_double(37, 101603, 2288678211812649998);
    }
    assert(pow(37, 406412) % (P as int) == 2292940126354470532) by {
        lemma_pow_double(37, 203206, 673425718396071659);
    }
    assert(pow(37, 812824) % (P as int) == 404481710757480823) by {
        lemma_pow_double(37, 406412, 2292940126354470532);
    }
    assert(pow(37, 1625649) % (P as int) == 2205404421398165623) by {
        lemma_pow_double_plus_one(37, 812824, 404481710757480823);
    }
    assert(pow(37, 3251299) % (P as int) == 1819880567858683000) by {
        lemma_pow_double_plus_one(37, 1625649, 2205404421398165623);
    }
    assert(pow(37, 6502599) % (P as int) == 990383470022917481) by {
        lemma_pow_double_plus_one(37, 3251299, 1819880567858683000);
    }
    assert(pow(37, 13005199) % (P as int) == 1710615354443644154) by {
        lemma_pow_double_plus_one(37, 6502599, 990383470022917481);
    }
    assert(pow(37, 26010399) % (P as int) == 1526705269841816002) by {
        lemma_pow_double_plus_one(37, 13005199, 1710615354443644154);
    }
    assert(pow(37, 52020799) % (P as int) == 826177578639718551) by {
        lemma_pow_double_plus_one(37, 26010399, 1526705269841816002);
    }
    assert(pow(37, 104041599) % (P as int) == 1957841165473713867) by {
        lemma_pow_double_plus_one(37, 52020799, 826177578639718551);
    }
    assert(pow(37, 208083199) % (P as int) == 1745325127924460195) by {
        lemma_pow_double_plus_one(37, 104041599, 1957841165473713867);
    }
    assert(pow(37, 416166399) % (P as int) == 1538526906800861084) by {
        lemma_pow_double_plus_one(37, 208083199, 1745325127924460195);
    }
    assert(pow(37, 832332799) % (P as int) == 1761072624724235084) by {
        lemma_pow_double_plus_one(37, 416166399, 1538526906800861084);
    }
    assert(pow(37, 1664665598) % (P as int) == 63253708693872176) by {
        lemma_pow_double(37, 832332799, 1761072624724235084);
    }
    assert(pow(37, 3329331196) % (P as int) == 1708521526375058149) by {
        lemma_pow_double(37, 1664665598, 63253708693872176);
    }
    assert(pow(37, 6658662393) % (P as int) == 900154906466593628) by {
        lemma_pow_double_plus_one(37, 3329331196, 1708521526375058149);
    }
    assert(pow(37, 13317324787) % (P as int) == 549180993822734185) by {
        lemma_pow_double_plus_one(37, 6658662393, 900154906466593628);
    }
    assert(pow(37, 26634649575) % (P as int) == 974336029773150391) by {
        lemma_pow_double_plus_one(37, 13317324787, 549180993822734185);
    }
    assert(pow(37, 53269299150) % (P as int) == 767531949375742427) by {
        lemma_pow_double(37, 26634649575, 974336029773150391);
    }
    assert(pow(37, 106538598300) % (P as int) == 1028174308127840095) by {
        lemma_pow_double(37, 53269299150, 767531949375742427);
    }
    assert(pow(37, 213077196601) % (P as int) == 1208756567786443673) by {
        lemma_pow_double_plus_one(37, 106538598300, 1028174308127840095);
    }
    assert(pow(37, 426154393203) % (P as int) == 1861871283221949698) by {
        lemma_pow_double_plus_one(37, 213077196601, 1208756567786443673);
    }
    assert(pow(37, 852308786406) % (P as int) == 218890034787544464) by {
        lemma_pow_double(37, 426154393203, 1861871283221949698);
    }
    assert(pow(37, 1704617572812) % (P as int) == 1780674643128744138) by {
        lemma_pow_double(37, 852308786406, 218890034787544464);
    }
    assert(pow(37, 3409235145624) % (P as int) == 1153594686673240925) by {
        lemma_pow_double(37, 1704617572812, 1780674643128744138);
    }
    assert(pow(37, 6818470291249) % (P as int) == 739753190498860754) by {
        lemma_pow_double_plus_one(37, 3409235145624, 1153594686673240925);
    }
    assert(pow(37, 13636940582499) % (P as int) == 1944557661267872603) by {
        lemma_pow_double_plus_one(37, 6818470291249, 739753190498860754);
    }
    assert(pow(37, 27273881164999) % (P as int) == 1949687190117542660) by {
        lemma_pow_double_plus_one(37, 13636940582499, 1944557661267872603);
    }
    assert(pow(37, 54547762329998) % (P as int) == 206225659005950175) by {
        lemma_pow_double(37, 27273881164999, 1949687190117542660);
    }
    assert(pow(37, 109095524659996) % (P as int) == 2108306817830658923) by {
        lemma_pow_double(37, 54547762329998, 206225659005950175);
    }
    assert(pow(37, 218191049319993) % (P as int) == 2284248537114262942) by {
        lemma_pow_double_plus_one(37, 109095524659996, 2108306817830658923);
    }
    assert(pow(37, 436382098639987) % (P as int) == 1286955239450888582) by {
        lemma_pow_double_plus_one(37, 218191049319993, 2284248537114262942);
    }
    assert(pow(37, 872764197279975) % (P as int) == 1523258487111086724) by {
        lemma_pow_double_plus_one(37, 436382098639987, 1286955239450888582);
    }
    assert(pow(37, 1745528394559950) % (P as int) == 30210013857155493) by {
        lemma_pow_double(37, 872764197279975, 1523258487111086724);
    }
}

proof fn lemma_no_divisor_of_5(d: u16)
    by (bit_vector)
    requires
        1 < d,
        d < 5,
    ensures
        5u16 % d != 0,
{
}

proof fn lemma_no_divisor_of_7(d: u16)
    by (bit_vector)
    requires
        1 < d,
        d < 7,
    ensures
        7u16 % d != 0,
{
}

proof fn lemma_no_divisor_of_11(d: u16)
    by (bit_vector)
    requires
        1 < d,
        d < 11,
    ensures
        11u16 % d != 0,
{
}

proof fn lemma_no_divisor_of_13(d: u16)
    by (bit_vector)
    requires
        1 < d,
        d < 13,
    ensures
        13u16 % d != 0,
{
}

proof fn lemma_no_divisor_of_31(d: u16)
    by (bit_vector)
    requires
        1 < d,
        d < 31,
    ensures
        31u16 % d != 0,
{
}

proof fn lemma_no_divisor_of_41(d: u16)
    by (bit_vector)
    requires
        1 < d,
        d < 41,
    ensures
        41u16 % d != 0,
{
}

proof fn lemma_no_divisor_of_61(d: u16)
    by (bit_vector)
    requires
        1 < d,
        d < 61,
    ensures
        61u16 % d != 0,
{
}

proof fn lemma_no_divisor_of_151(d: u16)
    by (bit_vector)
    requires
        1 < d,
        d < 151,
    ensures
        151u16 % d != 0,
{
}

proof fn lemma_no_divisor_of_331(d: u16)
    by (bit_vector)
    requires
        1 < d,
        d < 331,
    ensures
        331u16 % d != 0,
{
}

proof fn lemma_no_divisor_of_1321(d: u16)
    by (bit_vector)
    requires
        1 < d,
        d < 1321,
    ensures
        1321u16 % d != 0,
{
}


/// `n` is prime: greater than one with no divisor strictly between one and itself.
pub open spec fn is_prime(n: int) -> bool {
    &&& n > 1
    &&& forall|d: int| 1 < d < n ==> #[trigger] (n % d) != 0
}

/// The prime factors of `p - 1`, with multiplicity.
pub open spec fn order_factors() -> Seq<int> {
    seq![2int, 3, 3, 5, 5, 7, 11, 13, 31, 41, 61, 151, 331, 1321]
}

/// The product of a sequence of integers.
pub open spec fn product(s: Seq<int>) -> int
    decreases s.len(),
{
    if s.len() == 0 {
        1
    } else {
        product(s.drop_last()) * s.last()
    }
}

/// The greatest common divisor, by Euclid's algorithm.
pub open spec fn gcd(a: nat, b: nat) -> nat
    decreases b,
{
    if b == 0 {
        a
    } else {
        gcd(b, a % b)
    }
}

/// Every listed factor of `p - 1` is prime.
proof fn lemma_order_factors_prime()
    ensures
        forall|k: int| 0 <= k < order_factors().len() ==> is_prime(#[trigger] order_factors()[k]),
{
    assert forall|d: int| 1 < d < 3 implies #[trigger] (3int % d) != 0 by {
        assert(d == 2);
    }
    assert forall|d: int| 1 < d < 5 implies #[trigger] (5int % d) != 0 by { lemma_no_divisor_of_5(d as u16); }
    assert forall|d: int| 1 < d < 7 implies #[trigger] (7int % d) != 0 by { lemma_no_divisor_of_7(d as u16); }
    assert forall|d: int| 1 < d < 11 implies #[trigger] (11int % d) != 0 by { lemma_no_divisor_of_11(d as u16); }
    assert forall|d: int| 1 < d < 13 implies #[trigger] (13int % d) != 0 by { lemma_no_divisor_of_13(d as u16); }
    assert forall|d: int| 1 < d < 31 implies #[trigger] (31int % d) != 0 by { lemma_no_divisor_of_31(d as u16); }
    assert forall|d: int| 1 < d < 41 implies #[trigger] (41int % d) != 0 by { lemma_no_divisor_of_41(d as u16); }
    assert forall|d: int| 1 < d < 61 implies #[trigger] (61int % d) != 0 by { lemma_no_divisor_of_61(d as u16); }
    assert forall|d: int| 1 < d < 151 implies #[trigger] (151int % d) != 0 by { lemma_no_divisor_of_151(d as u16); }
    assert forall|d: int| 1 < d < 331 implies #[trigger] (331int % d) != 0 by { lemma_no_divisor_of_331(d as u16); }
    assert forall|d: int| 1 < d < 1321 implies #[trigger] (1321int % d) != 0 by { lemma_no_divisor_of_1321(d as u16); }
    assert(is_prime(2));
    assert(is_prime(3));
    assert(is_prime(5));
    assert(is_prime(7));
    assert(is_prime(11));
    assert(is_prime(13));
    assert(is_prime(31));
    assert(is_prime(41));
    assert(is_prime(61));
    assert(is_prime(151));
    assert(is_prime(331));
    assert(is_prime(1321));
}

/// The listed factors multiply to `p - 1`.
proof fn lemma_order_factors_product()
    ensures
        product(order_factors()) == P - 1,
{
    assert(product(Seq::<int>::empty()) == 1);
    assert(seq![2int].drop_last() =~= Seq::<int>::empty());
    assert(seq![2int].last() == 2);
    assert(product(seq![2int]) == 2);
    assert(seq![2int, 3].drop_last() =~= seq![2int]);
    assert(seq![2int, 3].last() == 3);
    assert(product(seq![2int, 3]) == 6);
    assert(seq![2int, 3, 3].drop_last() =~= seq![2int, 3]);
    assert(seq![2int, 3, 3].last() == 3);
    assert(product(seq![2int, 3, 3]) == 18);
    assert(seq![2int, 3, 3, 5].drop_last() =~= seq![2int, 3, 3]);
    assert(seq![2int, 3, 3, 5].last() == 5);
    assert(product(seq![2int, 3, 3, 5]) == 90);
    assert(seq![2int, 3, 3, 5, 5].drop_last() =~= seq![2int, 3, 3, 5]);
    assert(seq![2int, 3, 3, 5, 5].last() == 5);
    assert(product(seq![2int, 3, 3, 5, 5]) == 450);
    assert(seq![2int, 3, 3, 5, 5, 7].drop_last() =~= seq![2int, 3, 3, 5, 5]);
    assert(seq![2int, 3, 3, 5, 5, 7].last() == 7);
    assert(product(seq![2int, 3, 3, 5, 5, 7]) == 3150);
    assert(seq![2int, 3, 3, 5, 5, 7, 11].drop_last() =~= seq![2int, 3, 3, 5, 5, 7]);
    assert(seq![2int, 3, 3, 5, 5, 7, 11].last() == 11);
    assert(product(seq![2int, 3, 3, 5, 5, 7, 11]) == 34650);
    assert(seq![2int, 3, 3, 5, 5, 7, 11, 13].drop_last() =~= seq![2int, 3, 3, 5, 5, 7, 11]);
    assert(seq![2int, 3, 3, 5, 5, 7, 11, 13].last() == 13);
    assert(product(seq![2int, 3, 3, 5, 5, 7, 11, 13]) == 450450);
    assert(seq![2int, 3, 3, 5, 5, 7, 11, 13, 31].drop_last() =~= seq![2int, 3, 3, 5, 5, 7, 11, 13]);
    assert(seq![2int, 3, 3, 5, 5, 7, 11, 13, 31].last() == 31);
    assert(product(seq![2int, 3, 3, 5, 5, 7, 11, 13, 31]) == 13963950);
    assert(seq![2int, 3, 3, 5, 5, 7, 11, 13, 31, 41].drop_last() =~= seq![2int, 3, 3, 5, 5, 7, 11, 13, 31]);
    assert(seq![2int, 3, 3, 5, 5, 7, 11, 13, 31, 41].last() == 41);
    assert(product(seq![2int, 3, 3, 5, 5, 7, 11, 13, 31, 41]) == 572521950);
    assert(seq![2int, 3, 3, 5, 5, 7, 11, 13, 31, 41, 61].drop_last() =~= seq![2int, 3, 3, 5, 5, 7, 11, 13, 31, 41]);
    assert(seq![2int, 3, 3, 5, 5, 7, 11, 13, 31, 41, 61].last() == 61);
    assert(product(seq![2int, 3, 3, 5, 5, 7, 11, 13, 31, 41, 61]) == 34923838950);
    assert(seq![2int, 3, 3, 5, 5, 7, 11, 13, 31, 41, 61, 151].drop_last() =~= seq![2int, 3, 3, 5, 5, 7, 11, 13, 31, 41, 61]);
    assert(seq![2int, 3, 3, 5, 5, 7, 11, 13, 31, 41, 61, 151].last() == 151);
    assert(product(seq![2int, 3, 3, 5, 5, 7, 11, 13, 31, 41, 61, 151]) == 5273499681450);
    assert(seq![2int, 3, 3, 5, 5, 7, 11, 13, 31, 41, 61, 151, 331].drop_last() =~= seq![2int, 3, 3, 5, 5, 7, 11, 13, 31, 41, 61, 151]);
    assert(seq![2int, 3, 3, 5, 5, 7, 11, 13, 31, 41, 61, 151, 331].last() == 331);
    assert(product(seq![2int, 3, 3, 5, 5, 7, 11, 13, 31, 41, 61, 151, 331]) == 1745528394559950);
    assert(seq![2int, 3, 3, 5, 5, 7, 11, 13, 31, 41, 61, 151, 331, 1321].drop_last() =~= seq![2int, 3, 3, 5, 5, 7, 11, 13, 31, 41, 61, 151, 331]);
    assert(seq![2int, 3, 3, 5, 5, 7, 11, 13, 31, 41, 61, 151, 331, 1321].last() == 1321);
    assert(product(seq![2int, 3, 3, 5, 5, 7, 11, 13, 31, 41, 61, 151, 331, 1321]) == 2305843009213693950);
}

/// `37^((p-1)/q) != 1` for every listed factor `q` of `p - 1`.
proof fn lemma_generator_partial_powers()
    ensures
        forall|k: int| 0 <= k < order_factors().len()
            ==> pow(37, ((P - 1) / #[trigger] order_factors()[k]) as nat) % (P as int) != 1,
{
    lemma_generator_power_over_2();
    lemma_generator_power_over_3();
    lemma_generator_power_over_5();
    lemma_generator_power_over_7();
    lemma_generator_power_over_11();
    lemma_generator_power_over_13();
    lemma_generator_power_over_31();
    lemma_generator_power_over_41();
    lemma_generator_power_over_61();
    lemma_generator_power_over_151();
    lemma_generator_power_over_331();
    lemma_generator_power_over_1321();
}

/// Integer combinations of multiples of `m` are multiples of `m`.
proof fn lemma_mod_linear(m: int, x: int, y: int, s: int, t: int)
    requires
        m > 0,
        x % m == 0,
        y % m == 0,
    ensures
        (x * s + y * t) % m == 0,
{
    lemma_fundamental_div_mod(x, m);
    lemma_fundamental_div_mod(y, m);
    let k = (x / m) * s + (y / m) * t;
    assert(x * s + y * t == k * m) by (nonlinear_arith)
        requires
            x == m * (x / m),
            y == m * (y / m),
            k == (x / m) * s + (y / m) * t,
    ;
    lemma_mod_multiples_basic(k, m);
}

/// A positive multiple of `d > 0` is at least `d`.
proof fn lemma_divisor_le(d: int, x: int)
    requires
        d > 0,
        x > 0,
        x % d == 0,
    ensures
        d <= x,
{
    lemma_fundamental_div_mod(x, d);
    let q = x / d;
    assert(q >= 1) by (nonlinear_arith)
        requires
            x == d * q,
            x > 0,
            d > 0,
    ;
    assert(d <= x) by (nonlinear_arith)
        requires
            x == d * q,
            q >= 1,
            d > 0,
    ;
}

/// `gcd(a, b)` is a positive common divisor of `a` and `b`.
proof fn lemma_gcd_divides(a: nat, b: nat)
    requires
        a > 0 || b > 0,
    ensures
        gcd(a, b) > 0,
        (a as int) % (gcd(a, b) as int) == 0,
        (b as int) % (gcd(a, b) as int) == 0,
    decreases b,
{
    if b == 0 {
        lemma_mod_self_0(a as int);
        lemma_small_mod(0, a);
    } else {
        lemma_gcd_divides(b, a % b);
        let g = gcd(a, b) as int;
        lemma_fundamental_div_mod(a as int, b as int);
        lemma_mod_linear(g, b as int, (a % b) as int, (a / b) as int, 1);
        assert(a == b * (a / b) + (a % b));
        assert(b as int * (a / b) as int + (a % b) as int * 1 == a);
    }
}

/// Bézout's identity: `gcd(a, b)` is an integer combination of `a` and `b`.
proof fn lemma_bezout(a: nat, b: nat) -> (c: (int, int))
    ensures
        a * c.0 + b * c.1 == gcd(a, b),
    decreases b,
{
    if b == 0 {
        (1, 0)
    } else {
        let (x, y) = lemma_bezout(b, a % b);
        let q = (a / b) as int;
        let r = (a % b) as int;
        lemma_fundamental_div_mod(a as int, b as int);
        assert(a * y + b * (x - q * y) == b * x + r * y) by (nonlinear_arith)
            requires
                a == b * q + r,
        ;
        (y, x - q * y)
    }
}

/// If `g^a = 1` and `g^b = 1` (mod p) then `g^gcd(a, b) = 1`.
proof fn lemma_pow_gcd(g: int, a: nat, b: nat)
    requires
        pow(g, a) % (P as int) == 1,
        pow(g, b) % (P as int) == 1,
    ensures
        pow(g, gcd(a, b)) % (P as int) == 1,
    decreases b,
{
    if b > 0 {
        let m = P as int;
        let q = a / b;
        let r = a % b;
        lemma_fundamental_div_mod(a as int, b as int);
        assert(a == b * q + r);
        lemma_pow_adds(g, b * q, r);
        lemma_pow_multiplies(g, b, q);
        lemma_pow_mod_noop(pow(g, b), q, m);
        lemma1_pow(q);
        assert(pow(g, a) == pow(g, b * q) * pow(g, r));
        assert(pow(pow(g, b), q) == pow(g, b * q));
        assert(pow(1, q) == 1);
        assert(pow(g, b * q) % m == 1);
        lemma_mul_mod_noop(pow(g, b * q), pow(g, r), m);
        lemma_mod_twice(pow(g, r), m);
        assert((1 * (pow(g, r) % m)) % m == pow(g, r) % m);
        assert(pow(g, r) % m == 1);
        lemma_pow_gcd(g, b, r);
    }
}

/// A divisor `e >= 2` of a product of primes is divisible by one of them.
proof fn lemma_listed_factor_divides(s: Seq<int>, e: int) -> (i: int)
    requires
        forall|k: int| 0 <= k < s.len() ==> is_prime(#[trigger] s[k]),
        e >= 2,
        product(s) % e == 0,
    ensures
        0 <= i < s.len(),
        e % s[i] == 0,
    decreases s.len(),
{
    if s.len() == 0 {
        lemma_small_mod(1, e as nat);
        assert(false);
        0
    } else {
        let q = s.last();
        let rest = s.drop_last();
        let r = product(rest);
        assert(is_prime(s[s.len() - 1]));
        assert(q > 1);
        lemma_gcd_divides(e as nat, q as nat);
        let g = gcd(e as nat, q as nat) as int;
        lemma_divisor_le(g, q);
        if g == q {
            (s.len() - 1) as int
        } else {
            assert(g == 1) by {
                if g > 1 {
                    assert(q % g != 0);
                }
            }
            let (x, y) = lemma_bezout(e as nat, q as nat);
            assert(r == e * (r * x) + (r * q) * y) by (nonlinear_arith)
                requires
                    e * x + q * y == 1,
            ;
            lemma_mod_self_0(e);
            lemma_mod_linear(e, e, r * q, r * x, y);
            assert forall|k: int| 0 <= k < rest.len() implies is_prime(#[trigger] rest[k]) by {
                assert(rest[k] == s[k]);
            }
            let i = lemma_listed_factor_divides(rest, e);
            assert(rest[i] == s[i]);
            i
        }
    }
}

/// `37` has multiplicative order exactly `p - 1`.
proof fn lemma_generator_order(k: nat)
    requires
        0 < k < P - 1,
    ensures
        pow(37, k) % (P as int) != 1,
{
    if pow(37, k) % (P as int) == 1 {
        let n = (P - 1) as nat;
        lemma_generator_full_power();
        lemma_pow_gcd(37, k, n);
        lemma_gcd_divides(k, n);
        let d = gcd(k, n) as int;
        lemma_divisor_le(d, k as int);
        lemma_fundamental_div_mod(n as int, d);
        let e: int = (n as int) / d;
        assert(n == d * e);
        assert(e >= 2) by (nonlinear_arith)
            requires
                n == d * e,
                d > 0,
                d < n,
        ;
        lemma_order_factors_product();
        lemma_order_factors_prime();
        lemma_mod_multiples_basic(d, e);
        assert(product(order_factors()) % e == 0) by {
            lemma_mul_is_commutative(d, e);
        }
        let i = lemma_listed_factor_divides(order_factors(), e);
        let q = order_factors()[i];
        assert(q > 1);
        lemma_fundamental_div_mod(e, q);
        let f: int = e / q;
        assert(n == q * (d * f) && (d * f) >= 0) by (nonlinear_arith)
            requires
                n == d * e,
                e == q * f,
                d > 0,
                e > 0,
                q > 0,
        ;
        lemma_div_multiples_vanish(d * f, q);
        assert((n as int) / q == d * f);
        lemma_pow_multiplies(37, d as nat, f as nat);
        lemma_pow_mod_noop(pow(37, d as nat), f as nat, P as int);
        lemma1_pow(f as nat);
        lemma_generator_partial_powers();
        assert(pow(37, ((P - 1) / order_factors()[i]) as nat) % (P as int) != 1);
    }
}

/// The powers `37^1, …, 37^(p-1)` are pairwise distinct modulo `p`.
proof fn lemma_generator_powers_distinct(i: nat, j: nat)
    requires
        1 <= i < j <= P - 1,
    ensures
        pow(37, i) % (P as int) != pow(37, j) % (P as int),
{
    let m = P as int;
    let n = (P - 1) as nat;
    if pow(37, i) % m == pow(37, j) % m {
        let x = pow(37, (n - i) as nat);
        let gap = pow(37, (j - i) as nat);
        lemma_generator_full_power();
        lemma_pow_adds(37, i, (n - i) as nat);
        lemma_pow_adds(37, j, (n - i) as nat);
        lemma_pow_adds(37, n, (j - i) as nat);
        assert(pow(37, i) * x == pow(37, n));
        assert(pow(37, j) * x == pow(37, n) * gap);
        lemma_mul_mod_noop(pow(37, j), x, m);
        lemma_mul_mod_noop(pow(37, i), x, m);
        lemma_mul_mod_noop(pow(37, n), gap, m);
        lemma_mod_twice(gap, m);
        assert((1 * (gap % m)) % m == gap % m);
        assert(gap % m == 1);
        lemma_generator_order((j - i) as nat);
    }
}

/// No power `37^k` with `1 <= k <= p - 1` is `0` modulo `p`.
proof fn lemma_generator_power_nonzero(k: nat)
    requires
        1 <= k <= P - 1,
    ensures
        pow(37, k) % (P as int) != 0,
{
    let m = P as int;
    let n = (P - 1) as nat;
    lemma_generator_full_power();
    lemma_pow_adds(37, k, (n - k) as nat);
    lemma_mul_mod_noop(pow(37, k), pow(37, (n - k) as nat), m);
    if pow(37, k) % m == 0 {
        assert((0 * (pow(37, (n - k) as nat) % m)) % m == 0);
    }
}

/// Every nonzero residue is a power of `37`.
proof fn lemma_generator_powers_cover(a: int)
    requires
        1 <= a < P,
    ensures
        exists|k: nat| 1 <= k < P && #[trigger] pow(37, k) % (P as int) == a,
{
    let f = |k: int| pow(37, k as nat) % (P as int);
    let x = set_int_range(1, P as int);
    let y = x.map(f);
    lemma_int_range(1, P as int);
    assert forall|i: int, j: int| x.contains(i) && x.contains(j) && #[trigger] f(i) == #[trigger] f(j) implies i == j by {
        if i < j {
            lemma_generator_powers_distinct(i as nat, j as nat);
        } else if j < i {
            lemma_generator_powers_distinct(j as nat, i as nat);
        }
    }
    assert(injective_on(f, x));
    lemma_map_size(x, y, f);
    assert forall|v: int| y.contains(v) implies x.contains(v) by {
        let k = choose|k: int| x.contains(k) && v == f(k);
        lemma_generator_power_nonzero(k as nat);
    }
    lemma_subset_equality(y, x);
    assert(y.contains(a));
    let k = choose|k: int| x.contains(k) && a == f(k);
    assert(pow(37, k as nat) % (P as int) == a);
}

/// Fermat's little theorem for `p`: every nonzero element `a` has `a^(p-1) = 1`.
pub proof fn law_fermat_little_theorem(a: int)
    requires
        field_norm(a) != 0,
    ensures
        field_pow(a, (P - 1) as nat) == 1,
{
    let m = P as int;
    let n = (P - 1) as nat;
    let r = a % m;
    lemma_generator_powers_cover(r);
    let k = choose|k: nat| 1 <= k < P && #[trigger] pow(37, k) % m == r;
    lemma_pow_mod_noop(a, n, m);
    lemma_pow_mod_noop(pow(37, k), n, m);
    lemma_pow_multiplies(37, k, n);
    lemma_pow_multiplies(37, n, k);
    lemma_mul_is_commutative(k as int, n as int);
    lemma_generator_full_power();
    lemma_pow_mod_noop(pow(37, n), k, m);
    lemma1_pow(k);
}

/// Every nonzero element has a multiplicative inverse, namely `a^(p-2)`:
/// `a * a^(p-2) = 1`.
pub proof fn law_mul_inverse(a: int)
    requires
        field_norm(a) != 0,
    ensures
        field_mul(a, field_inv(a)) == 1,
{
    let m = P as int;
    lemma_mul_mod_noop_right(a, pow(a, (P - 2) as nat), m);
    lemma_pow_adds(a, 1, (P - 2) as nat);
    lemma_pow1(a);
    law_fermat_little_theorem(a);
}

/// Division undoes multiplication: `(a / b) * b = a` for nonzero `b`.
pub proof fn law_div_then_mul(a: int, b: int)
    requires
        field_norm(b) != 0,
    ensures
        field_mul(field_mul(a, field_inv(b)), b) == field_norm(a),
{
    let m = P as int;
    let inv = field_inv(b);
    law_mul_inverse(b);
    lemma_mul_mod_noop_left(a * inv, b, m);
    lemma_mul_is_associative(a, inv, b);
    lemma_mul_is_commutative(inv, b);
    lemma_mul_mod_noop_right(a, b * inv, m);
}

/// The field has no zero divisors: a product of nonzero elements is nonzero.
pub proof fn law_no_zero_divisors(x: int, y: int)
    requires
        field_norm(x) != 0,
        field_norm(y) != 0,
    ensures
        field_mul(x, y) != 0,
{
    let m = P as int;
    let n = (P - 1) as nat;
    law_fermat_little_theorem(x);
    law_fermat_little_theorem(y);
    lemma_pow_distributes(x, y, n);
    lemma_mul_mod_noop(pow(x, n), pow(y, n), m);
    lemma_pow_mod_noop(x * y, n, m);
    if (x * y) % m == 0 {
        lemma0_pow(n);
    }
}

/// The modulus `p = 2^61 - 1` is prime.
pub proof fn law_modulus_is_prime()
    ensures
        is_prime(P as int),
{
    let m = P as int;
    assert forall|d: int| 1 < d < m implies #[trigger] (m % d) != 0 by {
        if m % d == 0 {
            lemma_fundamental_div_mod(m, d);
            let e = m / d;
            assert(1 < e < m) by (nonlinear_arith)
                requires
                    m == d * e,
                    1 < d < m,
            ;
            lemma_small_mod(d as nat, P as nat);
            lemma_small_mod(e as nat, P as nat);
            law_no_zero_divisors(d, e);
            lemma_mod_self_0(m);
        }
    }
}

} // verus!
