use vstd::prelude::*;

verus! {

// Zobrist hashing for position identification and transposition tables.
// Every key is a term of one linear congruential sequence started from a fixed
// seed, so the keys are the same in every run.
//
// Layout of the key stream (term n + 1 of the sequence is `ZOBRIST_KEYS[n]`):
//   0..768    piece keys, piece index * 64 + square
//   768       side to move
//   769..773  castling rights bits 0..3
//   773       unused (start of the en-passant run)
//   774..782  en-passant file a..h

pub const ZOBRIST_SEED: u64 = 0xDEADBEEFCAFEBABE;

pub open spec fn lcg_spec(state: u64) -> u64 {
    ((state as int * 6364136223846793005 + 1442695040888963407) % 0x1_0000_0000_0000_0000) as u64
}

/// The `n`-th term of the key sequence (term 0 is the seed).
pub open spec fn lcg_iter(n: nat) -> u64
    decreases n,
{
    if n == 0 {
        ZOBRIST_SEED
    } else {
        lcg_spec(lcg_iter((n - 1) as nat))
    }
}

pub fn lcg(state: u64) -> (r: u64)
    ensures
        r == lcg_spec(state),
{
    let m = state.wrapping_mul(6364136223846793005);
    let r = m.wrapping_add(1442695040888963407);
    proof {
        vstd::arithmetic::div_mod::lemma_add_mod_noop(
            state as int * 6364136223846793005,
            1442695040888963407,
            0x1_0000_0000_0000_0000,
        );
        vstd::arithmetic::div_mod::lemma_small_mod(1442695040888963407nat, 0x1_0000_0000_0000_0000nat);
    }
    r
}

/// Generates the keys from the sequence: the piece keys (terms 1 to 768, piece
/// by piece and square by square), the side key (term 769), the castling keys
/// (terms 770 to 773) and the start of the en-passant run (term 774), from
/// which the eight file keys follow.
pub fn gen_keys() -> (r: ([[u64; 64]; 12], u64, [u64; 4], u64))
    ensures
        forall|p: int, sq: int|
            0 <= p < 12 && 0 <= sq < 64 ==> #[trigger] r.0[p][sq] == lcg_iter((p * 64 + sq + 1) as nat),
        r.1 == lcg_iter(769),
        forall|i: int| 0 <= i < 4 ==> #[trigger] r.2[i] == lcg_iter((770 + i) as nat),
        r.3 == lcg_iter(774),
{
    let mut pieces: [[u64; 64]; 12] = [[0u64; 64]; 12];
    let mut state = ZOBRIST_SEED;
    let mut p: usize = 0;
    while p < 12
        invariant
            p <= 12,
            state == lcg_iter((p * 64) as nat),
            forall|q: int, sq: int|
                0 <= q < p && 0 <= sq < 64 ==> #[trigger] pieces[q][sq] == lcg_iter((q * 64 + sq + 1) as nat),
        decreases 12 - p,
    {
        let mut row: [u64; 64] = [0u64; 64];
        let mut sq: usize = 0;
        while sq < 64
            invariant
                p < 12,
                sq <= 64,
                state == lcg_iter((p * 64 + sq) as nat),
                forall|j: int| 0 <= j < sq ==> #[trigger] row[j] == lcg_iter((p * 64 + j + 1) as nat),
            decreases 64 - sq,
        {
            state = lcg(state);
            row[sq] = state;
            sq = sq + 1;
        }
        pieces[p] = row;
        p = p + 1;
    }
    state = lcg(state);
    let side = state;
    let mut castling: [u64; 4] = [0u64; 4];
    let mut i: usize = 0;
    while i < 4
        invariant
            i <= 4,
            state == lcg_iter((769 + i) as nat),
            forall|j: int| 0 <= j < i ==> #[trigger] castling[j] == lcg_iter((770 + j) as nat),
        decreases 4 - i,
    {
        state = lcg(state);
        castling[i] = state;
        i = i + 1;
    }
    state = lcg(state);
    let ep_base = state;
    (pieces, side, castling, ep_base)
}

pub const ZOBRIST_KEYS: [u64; 782] = [
    0x9AFFB2731D6896B5, 0xF88621C078E6CA20, 0x449AD043DADEE8EF, 0x17D80FE88D400452,
    0x277EC7676986F1B9, 0xEB6522D912B7C5D4, 0x45EC95E5813D7393, 0x816393DF1419BF26,
    0x216D4E17CEDFF4FD, 0x022C1EDD229014C8, 0xB078C7B2FD726077, 0x61713AD1BBA07F3A,
    0x06B45DD2D67DA481, 0xC95B949B0B2E6AFC, 0x1C43CD5F0A4F539B, 0x95DFB68DCF0A188E,
    0x5B051542D1024445, 0x07B374A50CD4BC70, 0x7DBE5D52AF7830FF, 0x0B826067A8419F22,
    0xD303A499CFAC5849, 0x3E08DAE906FC3D24, 0x54E293369A071CA3, 0x3D8199CCA0BB66F6,
    0x75D4C916259AA48D, 0x80DEEDAFED496118, 0x83FF5FE3B7707A87, 0x02BFAD196789040A,
    0x7335B10775502D11, 0x5BE08209A3BFDC4C, 0xA1F68CDAB6A6EEAB, 0x48B08CA090AD4A5E,
    0x664F2CF48E7835D5, 0xFAB5CB8D3636A2C0, 0xD4B7B314537F5D0F, 0x899A1BE271B04DF2,
    0x0C5896FE9FEA42D9, 0xCEBA8AEC9F0BE874, 0xCC05D1529054E9B3, 0xF31923E09F7362C6,
    0x2B635D5E81EE181D, 0xC565F76691192168, 0x959DC35541ECF897, 0xA8387474A1451CDA,
    0x591A0C1D1CBFB9A1, 0x39A8C9DFF8E7019C, 0x00977FB2919B2DBB, 0xED319AE2AD35502E,
    0x4447BD302F536B65, 0x9D9018A229217D10, 0xF5505FD659A56D1F, 0x19F5AEC681A910C2,
    0x1A043130FA59B169, 0xA01307A1E64BC7C4, 0x747D9B117FE7DAC3, 0x09260331B02EB296,
    0xB365763293834FAD, 0x857C160EC5B455B8, 0x54AFBCECB2B8DAA7, 0x92329F9FED91C9AA,
    0x3C58EA11E5054A31, 0xF6531DF993A8DAEC, 0x709D0E602C0D10CB, 0xFF58AC873B2F29FE,
    0x7928D2319D5CE4F5, 0x8F23F963B4EA4B60, 0xCD3563645EDB612F, 0xF55AF6FEFD88E792,
    0x4E3378309353A3F9, 0xD37A7040B760DB14, 0x488060C5B2C0EFD3, 0x40FD2782541A5666,
    0x1032420962434B3D, 0x4417481E860FFE08, 0x91EC5B7FB1E520B7, 0x1074A66F466C0A7A,
    0x5A58206E4299DEC1, 0x79F96F87F44A683C, 0x014351624D1D97DB, 0x5691A6D59A67D7CE,
    0x47ACC05C629DA285, 0x7C8EA80894260DB0, 0x3BDAF4A61A52393F, 0xB151BAAD67ECD262,
    0x2AEF810E43711A89, 0xEFFD51400C302264, 0x83A2479AB12128E3, 0x08504BE6BDA34E36,
    0x58B95DE4DE570ACD, 0x28DC10EE60611A58, 0x227B250489C2CAC7, 0x910C9130EB10DF4A,
    0x53B7E0D396367751, 0x998CBE91E250A98C, 0x8D79434E022DC2EB, 0xE3F51D1943EC599E,
    0x105E2D93395EA415, 0x5593E052BCA9C400, 0x981E9EA16D7AF54F, 0x78FA177670B1D132,
    0xE67B2C9C978B1519, 0x9F6709CF4DDE9DB4, 0x1C2BBE98518985F3, 0x34DAFD3EA0769A06,
    0x0AC976EB70278E5D, 0x75D3DF27C61CAAA8, 0x7BC961A636E2D8D7, 0x4C7A6F242FFD481A,
    0x49758D0EBCD413E1, 0xBEB766A6BC809EDC, 0x72D2C103AEDE91FB, 0x988EFCE59A09AF6E,
    0xD0B20D539C28E9A5, 0xC30BACD7AF8A6E50, 0xFD41C5E07406955F, 0x9E6AE762C4F4E402,
    0xD18F7A2460BA93A9, 0xA1BBB903A4D14D04, 0x9B513A49C8BB0703, 0x4D42C783018139D6,
    0x18FBEB45885DD5ED, 0x965B0E275BF7AEF8, 0x7408AFBC78164AE7, 0x7B79B9044EEE44EA,
    0x59BFF6AE9FABB471, 0x2A19CDC5C8DF482C, 0xD95999081D11050B, 0xEB51BFADB84CD93E,
    0xD37DB89555C57335, 0x555B51BCC91D0CA0, 0x09F8E73B93E6196F, 0x18E15853DF130AD2,
    0x86992A1D44589639, 0x7EF337B948AD3054, 0x80EB7808B9B6AC13, 0xBD4D96E806F02DA6,
    0x34E1B33F2FE2E17D, 0x67F6575349E72748, 0x99EA51A7DE6E20F7, 0x24637CA736E0D5BA,
    0x870BE31EC4365901, 0xD5A49A7984B1A57C, 0xE7E62B018CE61C1B, 0xC853CEB04382D70E,
    0xED538A6E113D40C5, 0x1C64C9E790F69EF0, 0xA97E21078D4A817F, 0x63A0330CD6A945A2,
    0x6116A9EA4BFE1CC9, 0x99EDE428D05747A4, 0xEB25E9EC45BD7523, 0x71FA99D2C8307576,
    0xA54E1BAD97DFB10D, 0xEBCAC8658B201398, 0x62E4E691DD3B5B07, 0x30A06EB05C11FA8A,
    0x06BBED45DC2D0191, 0x4512D626F47CB6CC, 0x94865858C4BED72B, 0xF2C6063739B8A8DE,
    0xE5D8AA78E9D95255, 0x980B8BA209EC2540, 0x83D7D7A78AA4CD8F, 0x3BC28ECF30949472,
    0x0AC1819A75842759, 0xEA03443081F492F4, 0x3F7F2C5C1C506233, 0xB04330A31DEF1146,
    0xC76C1A98A9BD449D, 0x79CE93AA3E1773E8, 0x261C7F10DA0EF917, 0x31EF3F5787FEB35A,
    0xC0031DA85588AE21, 0x5C15A090F4057C1C, 0x7F67C6FE213C363B, 0xE4B3852BC23B4EAE,
    0x373EEE01FB22A7E5, 0x247089B302129F90, 0xB3D6868330A5FD9F, 0x047AEE8BAEF1F742,
    0x754ABCAD4303B5E9, 0xFE41C351A2EA1244, 0x346DA6478B307343, 0xDB52B85172190116,
    0xEBAB472897249C2D, 0x49744F31F4824838, 0xDEDF3EB03CB9FB27, 0x9F60CF43A964002A,
    0x6B8DD20EEA825EB1, 0x50A2598F8650F56C, 0x14B8B752A53F394B, 0xCF0C35FDFD97C87E,
    0x5AB5F8F5F0E24175, 0x235AA5EA62BF0DE0, 0x42AF0E60AE3F11AF, 0x353D04A7211E6E12,
    0xDF1E06DB4AD5C879, 0x3A7E1161C7DCC594, 0xFE00B5008E5EA853, 0xA0DD3CE08FDB44E6,
    0x5981BDD769FEB7BD, 0x228D77F803559088, 0x6892FB5C7F4D6137, 0xEED92179A43EE0FA,
    0x4CF0CDB131931341, 0xB80365FB25A422BC, 0xB300EE3509E8E05B, 0x5DBCBDE0D59B164E,
    0xAFDF079597211F05, 0x20E40A2180867030, 0x8E891222CCA109BF, 0x38259A5333B6F8E2,
    0x0BDB75E2C7935F09, 0xAEA7E6F024B1ACE4, 0xA7ED04BAE01C0163, 0xF7E660A373A2DCB6,
    0xAA8079E69474974D, 0xC06C4DFCD2C64CD8, 0xB2EA8BB33E1A2B47, 0x5DA1275F21CC55CA,
    0xEBE28AE42D73CBD1, 0x32CAF4CC1384040C, 0x6B927432CE9A2B6B, 0x22A7BF59CD52381E,
    0xF21709ED6A284095, 0x00781CAF6B3DC680, 0x0EDB32EAFF3CE5CF, 0x9C99577B409897B2,
    0x2A04395828157999, 0xB081345EDC8DC834, 0xF898F6AF08E97E73, 0xDBC305571B1CC886,
    0x2247ED1880EF3ADD, 0x54E85E542E497D28, 0xB443B53747B15957, 0x0D22C3D160895E9A,
    0x88D7274CDD1D8861, 0x1296696DA8B5995C, 0xC5E02ADD48F41A7B, 0xDB359D24D10A2DEE,
    0x64C2FA112680A625, 0xD47105513DFA10D0, 0xC3013C9F73C3A5DF, 0x8E8868451EE04A82,
    0x7AB2A97A9F751829, 0xB2CC00B051D61784, 0xB6F435E16F881F83, 0x0669841055360856,
    0xF18ADEAE2217A26D, 0x1CD4502794942178, 0x0528EB68ACE3EB67, 0xE445A2500432FB6A,
    0x4ABB8396CBC948F1, 0x30B05045A53DE2AC, 0x60C67942B4D7AD8B, 0xFAE12A6C064FF7BE,
    0xABB2961B58F34FB5, 0x5236F7866F104F20, 0xE11A93D5222649EF, 0x320A3D25F2EB1152,
    0x3A226E0CB50B3AB9, 0xE74A7D08762F9AD4, 0xFC2BDB8D68F8E493, 0x763D80FD921B9C26,
    0x327DDAA882D6CDFD, 0x8FAEC9AC879B39C8, 0x771C50C0D0C2E177, 0xFE10BF3BE5C62C3A,
    0x56406FAEA0F00D81, 0xC20E026F8061DFFC, 0x0220908B4465E49B, 0xD5A8F5539BF0958E,
    0xEA25E6F0EE893D45, 0xD2A6B76120158170, 0xF8F1761DDC95D1FF, 0xE919E28AFE55EC22,
    0x0449B630D470E149, 0x3E8411E21A7F5224, 0x7EA2C434487CCDA3, 0x986DA7FCB33A83F6,
    0xA8D1BA4E5655BD8D, 0xD4E3820EDC93C618, 0x060BAA92789F3B87, 0xE731BE29E37FF10A,
    0x266AFC80B04AD611, 0xF7E55DABB8A6914C, 0x416309BA2FFFBFAB, 0x439E18D999F9075E,
    0x860A3CC8C48B6ED5, 0x6EB80DCA6DDEA7C0, 0x946DDDBA5F833E0F, 0xBA20AD166FFDDAF2,
    0x83D0BA49DD7F0BD9, 0x85296AF83EEA3D74, 0xA0FBF6506F94DAB3, 0xD5B2DF04DB3FBFC6,
    0xAAA80EF587FD711D, 0x45CCD54F0BF2C668, 0x9B1738CDDC09F997, 0x19D86B49B0DD49DA,
    0x9DF34C3B89D2A2A1, 0x6026358323D0F69C, 0x2162DD92C6463EBB, 0x76EAC309B1B64D2E,
    0x119B8A773882E465, 0xFEE0213AC080C210, 0x50E919B0619F8E1F, 0x1DB2377033FFDDC2,
    0x275100DFB44EBA69, 0xE728C6E362D55CC4, 0xAA7B3BAC5E020BC3, 0x4FC9BB643E184F96,
    0xD6D07810CB76E8AD, 0x50D16F14816D3AB8, 0x9CAFA2A8B4D41BA7, 0x9DF204E0A69B36AA,
    0x655F7A1689C07331, 0xF282629E3EE60FEC, 0x43EDF7A17C1A61CB, 0xD39BDC850DB566FE,
    0xA7BF487DB8389DF5, 0x847EE7E61B50D060, 0x5E996B44A3DBC22F, 0x7C61EEAAC3B8F492,
    0x64F21F87D138ECF9, 0x380B0F6AD4E5B014, 0x09864E5DC1C560D3, 0x2E5846D1F0F13366,
    0x230E2D812CAB243D, 0x8374E173EBF82308, 0x9F79692A4F0EA1B7, 0x073D29D892B6B77A,
    0x46BC729C688D47C1, 0x395E95507E2ADD3C, 0x8B68E568FC9D28DB, 0xB83A7E5E21C354CE,
    0xBB2648DE51B59B85, 0xC3CA285C6CE3D2B0, 0x293F39D90168DA3F, 0xAEEFAA3BF5C61F62,
    0x4335F0D1D0D6A389, 0x3B097F8A03003764, 0x01A73A64871FD9E3, 0x3E1B6153BA376B36,
    0x1F25472B9FC323CD, 0x4AFD3CA98DC87F58, 0x18DE909B990A8BC7, 0xCEEC8A62886CCC4A,
    0x595AD579CAF22051, 0xC60550579D245E8C, 0x9F4362B3392F93EB, 0x23D323487AED169E,
    0x398B24B34342DD15, 0x861BBD9DDF0EC900, 0x8B3FAE2E7FB7D64F, 0xF72E0C89CE045E32,
    0xF31278380400DE19, 0xF772DC29CA49F2B4, 0xD016D4EDE89276F3, 0x31304CF7E197F706,
    0xCAFF8AD29127E75D, 0x916AFCC78C534FA8, 0x1BC171DB3358D9D7, 0xCF9BB7ADB03A751A,
    0xFA0A39CFD1E7FCE1, 0xD0C4B0CEEE9793DC, 0x83C3C4067972A2FB, 0xD569C11C8F7FAC6E,
    0x373B2C8A8B6962A5, 0x144C13A326E6B350, 0x366AC60B5E79B65F, 0x3AFAA90B4D90B102,
    0xC753ED13FFD09CA9, 0x236E848DC727E204, 0x488C6A3B7EDE3803, 0xD7183062FFFFD6D6,
    0xD358C93375826EED, 0x32EBE258404D93F8, 0x4D5DE49580CA8BE7, 0x0C36AFB217DCB1EA,
    0xC2F16E0AAAA7DD71, 0x3C3EE856AC897D2C, 0xF067803E6B47560B, 0xB60B37AF8F08163E,
    0x5F80048578F22C35, 0xEAD51159D4C091A0, 0xD7CD3145279F7A6F, 0xE0652CFD42C817D2,
    0x43ADA5972D9EDF39, 0x0BF2DF75A53F0554, 0x53D6032E51041D13, 0x7AAC9D31CF9C0AA6,
    0x3513136859BBBA7D, 0xD2AC8AF485AC4C48, 0xC8103360B670A1F7, 0x7922020F825082BA,
    0xFD568C3C1EAAC201, 0xE3248E6F483F1A7C, 0xEDE55A4932CEAD1B, 0xEDADC1FF3253540E,
    0x6878553C3AE639C5, 0x69DCE514A43163F0, 0xCA20892EBF5A227F, 0x96B807AB194792A2,
    0xDEDCDAC75B04A5C9, 0x50DBE9F26F745CA4, 0xB692E375E4452623, 0x8FA5672EFBD99276,
    0xEF93518D72FCCA0D, 0x48F7DECE0BA47898, 0xEF738ABCEB9C1C07, 0xCE6EAB0037D2E78A,
    0x636DFBFA23A9AA91, 0xD4CF2E08BA3D6BCC, 0x29BBEC087A69A82B, 0xBFE356B18B6E65DE,
    0x08763A65708E8B55, 0x45FB686FCC0E2A40, 0xD0AEB36A741AAE8F, 0xAF7A4F4BA9EC2172,
    0xEACC7E7F49DAF059, 0x8375ECEFDFECE7F4, 0x3C5021634C225333, 0x4C89595CF1656E46,
    0x565703AAAEAE9D9D, 0x33EEA82DA4AB18E8, 0xB113D3F829DDFA17, 0x0E32015FD5E0E05A,
    0x7C9BBAC16B9D9721, 0xA3C1B445D249711C, 0xFD25935682B9473B, 0x0C0224E8D5A64BAE,
    0xAC125841B97420E5, 0xB79010A94E6BE490, 0x36CF81200E921E9F, 0x80B7DF720AD2C442,
    0x67C59C73403ABEE9, 0x68879E71B00DA744, 0xF63D78603A5CA443, 0x0CEC95D3AE2C9E16,
    0x7D5435E1427A352D, 0x93CCE9E596752D38, 0xB2C92CF67D073C27, 0xF73754C61F376D2A,
    0x6F7683DBF4BF87B1, 0xDCF3A57387682A6C, 0x0449022F329E8A4B, 0xE0D89A6B4588057E,
    0xB2CAC0CB455FFA75, 0xC9D1A06D489F92E0, 0xB289DB96E1B172AF, 0xB2E1EE125F587B12,
    0xD863FF39987D1179, 0x80EE3384E87B9A94, 0xD0B6B70A0EF51953, 0xB6B8AD72915C21E6,
    0xEEA4F0DD3C4890BD, 0x3FADC9B7E9F7B588, 0xE7BD6DDE0328E237, 0xA62E18B5CBD38DFA,
    0xD650B0CB99887C41, 0xDBFB3D3447DE97BC, 0xF48BF2FD273A715B, 0xD243A01ED8E0934E,
    0x883D11A9645B1805, 0xAC641016433E3530, 0x6F540F33DAA9AABF, 0x6C6F941AA81A45E2,
    0xFF431257513AE809, 0xC13527E5311BC1E4, 0x7BF469F0E82CB263, 0x2FE3BC662B60F9B6,
    0x167FAF8B1242B04D, 0xDC0A23B0BB67B1D8, 0x53166DA6FC93EC47, 0xC234B9DF58F242CA,
    0xF90EEB38A0B174D1, 0x2AA9DEDF4931B90C, 0xCA0BC20AC3EDFC6B, 0x7B0EF9D926BCF51E,
    0xCDD373E816AE7995, 0x7E346161821CCB80, 0x947105DB90EBC6CF, 0x180B069F92F524B2,
    0x49233A509D4D4299, 0x3D3AC05621131D34, 0xA65CA3FAB2846F73, 0x8C7518820DE82586,
    0x608EA31132D193DD, 0x44C91B748A3A2228, 0xC749F68FDBD95A57, 0x512D7A77D9108B9A,
    0xCDA909644D337161, 0x267D7B13D8268E5C, 0x086DED17425A2B7B, 0xA368F6832F6A2AEE,
    0x381466739CE31F25, 0xA29D5397545055D0, 0x54FA81B85628C6DF, 0x1B8D7D9D4B061782,
    0x0AA41BBD73CD2129, 0x34E98CB08EC6AC84, 0xF623056A38BD5083, 0x52FF5E6E9BDEA556,
    0xA357CE0D949E3B6D, 0x85A5408289240678, 0x973A9B7555CA2C67, 0x48A7F2A3C3EB686A,
    0x4BD5AE1F6E4771F1, 0x7768CF80A8C217AC, 0x4E78BA0FC25FFE8B, 0xB7E3DD912C7534BE,
    0x07AD7C5807C208B5, 0x466B2D27642DD420, 0x024AA9644651AAEF, 0x5251054C48AA1E52,
    0x2B9C8A62201383B9, 0x96566EA3DFDB6FD4, 0x302D628A33D85593, 0x5BD0EAAAD9717926,
    0xEF9840174691A6FD, 0xF8E41A6AEE1A5EC8, 0xD666DF0E71776277, 0xB55711F5C67FD93A,
    0xFC158544EF667681, 0xADE3A5DF264954FC, 0x823285EC5A20759B, 0x6A80C6CE60AB128E,
    0x64C977C4C8543645, 0x3D380FB9074A4670, 0x98297677579772FF, 0x9074B70A217E3922,
    0xDF95194BD1B96A49, 0xE429EA2B59366724, 0xAF88AAFC5B167EA3, 0xB9050B623C0DA0F6,
    0xEE34FA83FFD4D68D, 0x69E931F942522B18, 0x53AE5E0C9831FC87, 0x7908BF01930ADE0A,
    0x3A9735B868497F11, 0xD5F37722C341464C, 0x08A47CB125FC90AB, 0x5290C97CE818C45E,
    0x9F4A6AD43FE2A7D5, 0xC4CD8BAF8E7AACC0, 0xB0E4D7796A6B1F0F, 0xF29516D6585F67F2,
    0x26F684F12C97D4D9, 0xB122C4B76EFC9274, 0xDF1FF2AC73F8CBB3, 0x175978167A601CC6,
    0x6BB44771AFD0CA1D, 0x9B08EC52B2406B68, 0x527AED1FA58AFA97, 0xB9E17202B10976DA,
    0x6F4161E8ACE98BA1, 0xA5EC17DC496EEB9C, 0x74CBBB9358954FBB, 0xFD5AAFC9880B4A2E,
    0xB418C7174FF65D65, 0xF7BB682295D40710, 0xA24C9638597DAF1F, 0x5A2F92632D6AAAC2,
    0x8B197056D8C7C369, 0xBEB7380B1492F1C4, 0xF2DDBD6762403CC3, 0x7534DC1D5C55EC96,
    0x48128C140E2E81AD, 0xC02ACD085D9A1FB8, 0x8C75DBDDF7535CA7, 0xC13B67974D38A3AA,
    0x81944FD65D7F9C31, 0xDE0752D129D744EC, 0x80C21E424ACBB2CB, 0xF4649B937F0FA3FE,
    0xBAE084E4EA5856F5, 0xBE26D44A54AB5560, 0x976D538209C0232F, 0x466D5EBA6DFD0192,
    0x5C912E3812A235F9, 0x79613DCD0C9E8514, 0xC9E5EE1637EDD1D3, 0x3AA480F28B1C1066,
    0x8135DF462AD6FD3D, 0xD645F41DA7544808, 0x9E5BCD907D9C22B7, 0xC8F6488F0995647A,
    0x1509119E7684B0C1, 0x25A196C6CCBF523C, 0x9EB638548BC0B9DB, 0x9B02498854F2D1CE,
    0x4C4DCB6DA1119485, 0xCFF8775FED9597B0, 0xB1D829427A637B3F, 0x4F67317644B36C62,
    0x32C78F333AC02C89, 0x3CF9B8CD39044C64, 0xD52CFA9D45428AE3, 0xFE40655D611F8836,
    0x3943ED5FFDF33CCD, 0xAE8DED0285A3E458, 0x10FBD8E2CAB64CC7, 0xA74163CDCD5CB94A,
    0xA5184788E0B1C951, 0xE7E91C81E1AC138C, 0xA0E83BD8F0D564EB, 0x3F59DF93AAC1D39E,
    0xCB22C293366B1615, 0xD20313F1BE67CE00, 0x7C46C405D4D8B74F, 0xFB18928E096AEB32,
    0x0A4BEDFA65FAA719, 0xB2AD80FDEAE947B4, 0x3857455F28BF67F3, 0xEBDE4E6ABA0D5406,
    0x34ADF24FF7EC405D, 0x7F412381D1FDF4A8, 0x17F8DF772332DAD7, 0xFEF7D742950BA21A,
    0x6B26D49B00FFE5E1, 0x181C29F9AF6288DC, 0x848FCE0BA5AAB3FB, 0x277273A30AC9A96E,
    0x065877842CEDDBA5, 0xB47FB3ABB036F850, 0x237E04DE7CD0D75F, 0x832EC3B711407E02,
    0xA813F287ED6AA5A9, 0xEC8E972132B27704, 0x4281BD63DF256903, 0x26C59F3AC2D273D6,
    0x19E6D2F8916B07ED, 0x477593A3991778F8, 0x467E4E5E8DE2CCE7, 0x298344F2425F1EEA,
    0x183B1EAE48A80671, 0x111257BF63E7B22C, 0xF74D0B2F3C21A70B, 0x9510B7BDB897533E,
    0x2BE4FD1B5762E535, 0x304F9093875816A0, 0xE5737CAF203CDB6F, 0x85A47A597E9124D2,
    0x5F58C556FE692839, 0xD48B052A3004DA54, 0xF55B2623D3758E13, 0xF5AF04A2C99BE7A6,
    0x82679ED1DB58937D, 0xC2FB89836AE57148, 0x42C3B874E3D722F7, 0x0AE6F1166C542FBA,
    0xDC91B30AC5232B01, 0xA8BBFD9964808F7C, 0x5D953A89BC5B3E1B, 0x8727787080F7D10E,
    0xBEB9310368D332C5, 0x85D730B9336028F0, 0xD5EC51D8C74DC37F, 0x93B0E91910F9DFA2,
    0x81B7ABA02A8F2EC9, 0x49AA305261C571A4, 0xBECBA7F6EEF0D723, 0x5F4441A30DD6AF76,
    0x6DE702CF0EDDE30D, 0x8379861AAA9CDD98, 0x4FF4FBA0E060DD07, 0xFD1266502F27D48A,
    0xFBEC6885B02A5391, 0xC2822B529DB220CC, 0x9669F385B4B8792B, 0x3972DA8D89F822DE,
    0x7B10CE9E8487C455, 0x67F9695B1F242F40, 0x5F0E614CE4748F8F, 0x36F5D5F1F557AE72,
    0x21C94599F7B5B959, 0x12D8A1E2F6193CF4, 0xF04E8A27A9184433, 0x6E0DA9B0902FCB46,
    0xA97876881D63F69D, 0x783F9DFEDEB2BDE8, 0xBEDEE1F83110FB17, 0x90E7FCEEFC570D5A,
    0x4ACB5823FFB68021, 0xDF00D2BDD341661C, 0x1997B4F749DA583B, 0xDE76854022E548AE,
    0x0E47B8B1CE0999E5, 0x3BBC3E7E80B92990, 0xA7AEAC0364623F9F, 0x680DB9E995C79142,
    0xEB7EE7BD6FF5C7E9, 0xD6418BB21A653C44, 0x031837AA17ACD543, 0xEEC415D2E2943B16,
    0x00A82CA74093CE2D, 0x32FBE71400DC1238, 0x5C9A6FC785B87D27, 0x9D80E24B6A9EDA2A,
    0x6AA34540F600B0B1, 0x107407ECF0335F6C, 0xFDB72F8546A1DB4B, 0xA1882574944C427E,
    0x870FA2D4F921B375, 0x7D74D3FBA97417E0, 0x2C8A61D4BE07D3AF, 0xA7A0275369A68812,
    0x2F41C80EB1A85A79, 0xBB3C8D544B4E6F94, 0x7D28EF76FEAF8A53, 0x77D76195F830FEE6,
    0x5A990F9A8A5669BD, 0x0074CA32CE0DDA88, 0x2F5B4F7EA0686337, 0x8D257D3605FC3AFA,
    0x75994E38B181E541, 0x0D607C9C56CD0CBC, 0x963AC4362C30025B, 0x79D0F793EFFA104E,
    0xAC1983A5D9D91105, 0x22FAE4FE55E9FA30, 0x410A1AB802964BBF, 0x07F7F3A9C59192E2,
    0x590BF8697F667109, 0x772D7F01A4B9D6E4, 0x7582C18AE0616363, 0x38A2BCCFF57316B6,
    0xFCAA538974D4C94D, 0xEDB94DC3167D16D8, 0xA0800C806571AD47, 0x9F2E4C7A1FAC2FCA,
    0x094FFE96BCF31DD1, 0x8A7E9BD230936E0C, 0x53EFF82141E5CD6B, 0x90424493E0FBB21E,
    0x3E0E78BFF478B295, 0x2B5776F9FDEFD080, 0xBBB10F64ED7EA7CF, 0x8CBBE1FAAB65B1B2,
    0x6F7F66D1D0090B99, 0x775B472F31CC7234, 0x68DFB9890D436073, 0xC6415F3B00078286,
    0xD33A668E7277ECDD, 0x7FD2AE4A0D9EC728, 0xFC0D0DD6EB655B57, 0x828E9C749E2BB89A,
    0x47E61BC89F4D5A61, 0x45BEEAB1BE4B835C, 0x078ADE43A5643C7B, 0xC559FF5A7B9E27EE,
    0xD20C05780D899825, 0x2BA5BD12249A9AD0, 0xADEC6259F471E7DF, 0x6CDFCAE89A3FE482,
    0x645B5CC85EA92A29, 0xD6B9FFDC3CEB4184, 0x707B5802B4168183, 0x2F3F6AE30EDB4256,
    0x9BBD48347DE8D46D, 0xB1EDD9EC9A27EB78, 0x54D581CB8B146D67, 0xD227B0BECD37D56A,
    0x7A6BC5546BC99AF1, 0xF25D9382A7FA4CAC, 0x3A0FB8795A8C4F8B, 0x1445EF760D6E71BE,
    0xAFBFD55BB9D4C1B5, 0x827060F6A83F5920, 0x9298CA4657610BEF, 0x0C297F3F5E7D2B52,
    0x7B9D36A33A9FCCB9, 0x0AEBF0939FBB44D4, 0x1DC8BB61F1DBC693, 0x627C0A67BA1B5626,
    0xDD8C9138AA107FFD, 0x302EA3E5A60D83C8, 0xC5BFAB62EF8FE377, 0x2E303EED2DCD863A,
    0x84C6C19351E0DF81, 0x356A3FEC4CE4C9FC,
];

/// Zobrist key number `n`.
pub closed spec fn zkey(n: int) -> u64 {
    ZOBRIST_KEYS[n]
}

fn key_at(n: usize) -> (k: u64)
    requires
        n < 782,
    ensures
        k == zkey(n as int),
{
    ZOBRIST_KEYS[n]
}

/// Key of piece index `piece_idx` (kind * 2 + color) standing on `sq`.
pub fn piece_key(piece_idx: usize, sq: u8) -> (k: u64)
    requires
        piece_idx < 12,
        sq < 64,
    ensures
        k == zkey(piece_idx * 64 + sq),
{
    key_at(piece_idx * 64 + sq as usize)
}

pub fn side_key() -> (k: u64)
    ensures
        k == zkey(768),
{
    key_at(768)
}

/// Key contributed by castling-right bit `j` of `rights`.
pub open spec fn castling_bit_key(rights: u8, j: int) -> u64 {
    if (rights >> (j as u8)) & 1u8 == 1u8 {
        zkey(769 + j)
    } else {
        0u64
    }
}

/// XOR of the keys of the castling-right bits `0..n` that are set in `rights`.
pub open spec fn castling_hash_upto(rights: u8, n: int) -> u64
    decreases n,
{
    if n <= 0 {
        0
    } else {
        castling_hash_upto(rights, n - 1) ^ castling_bit_key(rights, n - 1)
    }
}

pub open spec fn castling_hash(rights: u8) -> u64 {
    castling_hash_upto(rights, 4)
}

pub fn castling_key(rights: u8) -> (h: u64)
    ensures
        h == castling_hash(rights),
{
    let mut h: u64 = 0;
    let mut i: u8 = 0;
    while i < 4
        invariant
            i <= 4,
            h == castling_hash_upto(rights, i as int),
        decreases 4 - i,
    {
        proof {
            lemma_bit_test(rights, i);
        }
        let k = if rights & (1u8 << i) != 0 {
            key_at(769 + i as usize)
        } else {
            0
        };
        assert(k == castling_bit_key(rights, i as int));
        h = h ^ k;
        i = i + 1;
    }
    h
}

proof fn lemma_bit_test(x: u8, i: u8)
    by (bit_vector)
    requires
        i < 8,
    ensures
        (x & (1u8 << i) != 0) == ((x >> i) & 1u8 == 1u8),
{
}

pub fn ep_key(file: u8) -> (k: u64)
    requires
        file < 8,
    ensures
        k == zkey(774 + file),
{
    key_at(774 + file as usize)
}

/// The first key is the first term after the seed.
proof fn lemma_first_key()
    ensures
        ZOBRIST_KEYS[0] == lcg_spec(ZOBRIST_SEED),
{
    assert(ZOBRIST_KEYS[0] == 0x9AFFB2731D6896B5u64);
}

/// Keys 1 to 32 each follow the one before by the generator step.
#[verifier::rlimit(100)]
proof fn lemma_key_steps_1(i: int)
    requires
        1 <= i < 33,
    ensures
        ZOBRIST_KEYS[i] == lcg_spec(ZOBRIST_KEYS[i - 1]),
{
    if i == 1 {
        assert(ZOBRIST_KEYS[1] == 0xF88621C078E6CA20u64);
        assert(ZOBRIST_KEYS[0] == 0x9AFFB2731D6896B5u64);
    } else if i == 2 {
        assert(ZOBRIST_KEYS[2] == 0x449AD043DADEE8EFu64);
        assert(ZOBRIST_KEYS[1] == 0xF88621C078E6CA20u64);
    } else if i == 3 {
        assert(ZOBRIST_KEYS[3] == 0x17D80FE88D400452u64);
        assert(ZOBRIST_KEYS[2] == 0x449AD043DADEE8EFu64);
    } else if i == 4 {
        assert(ZOBRIST_KEYS[4] == 0x277EC7676986F1B9u64);
        assert(ZOBRIST_KEYS[3] == 0x17D80FE88D400452u64);
    } else if i == 5 {
        assert(ZOBRIST_KEYS[5] == 0xEB6522D912B7C5D4u64);
        assert(ZOBRIST_KEYS[4] == 0x277EC7676986F1B9u64);
    } else if i == 6 {
        assert(ZOBRIST_KEYS[6] == 0x45EC95E5813D7393u64);
        assert(ZOBRIST_KEYS[5] == 0xEB6522D912B7C5D4u64);
    } else if i == 7 {
        assert(ZOBRIST_KEYS[7] == 0x816393DF1419BF26u64);
        assert(ZOBRIST_KEYS[6] == 0x45EC95E5813D7393u64);
    } else if i == 8 {
        assert(ZOBRIST_KEYS[8] == 0x216D4E17CEDFF4FDu64);
        assert(ZOBRIST_KEYS[7] == 0x816393DF1419BF26u64);
    } else if i == 9 {
        assert(ZOBRIST_KEYS[9] == 0x022C1EDD229014C8u64);
        assert(ZOBRIST_KEYS[8] == 0x216D4E17CEDFF4FDu64);
    } else if i == 10 {
        assert(ZOBRIST_KEYS[10] == 0xB078C7B2FD726077u64);
        assert(ZOBRIST_KEYS[9] == 0x022C1EDD229014C8u64);
    } else if i == 11 {
        assert(ZOBRIST_KEYS[11] == 0x61713AD1BBA07F3Au64);
        assert(ZOBRIST_KEYS[10] == 0xB078C7B2FD726077u64);
    } else if i == 12 {
        assert(ZOBRIST_KEYS[12] == 0x06B45DD2D67DA481u64);
        assert(ZOBRIST_KEYS[11] == 0x61713AD1BBA07F3Au64);
    } else if i == 13 {
        assert(ZOBRIST_KEYS[13] == 0xC95B949B0B2E6AFCu64);
        assert(ZOBRIST_KEYS[12] == 0x06B45DD2D67DA481u64);
    } else if i == 14 {
        assert(ZOBRIST_KEYS[14] == 0x1C43CD5F0A4F539Bu64);
        assert(ZOBRIST_KEYS[13] == 0xC95B949B0B2E6AFCu64);
    } else if i == 15 {
        assert(ZOBRIST_KEYS[15] == 0x95DFB68DCF0A188Eu64);
        assert(ZOBRIST_KEYS[14] == 0x1C43CD5F0A4F539Bu64);
    } else if i == 16 {
        assert(ZOBRIST_KEYS[16] == 0x5B051542D1024445u64);
        assert(ZOBRIST_KEYS[15] == 0x95DFB68DCF0A188Eu64);
    } else if i == 17 {
        assert(ZOBRIST_KEYS[17] == 0x07B374A50CD4BC70u64);
        assert(ZOBRIST_KEYS[16] == 0x5B051542D1024445u64);
    } else if i == 18 {
        assert(ZOBRIST_KEYS[18] == 0x7DBE5D52AF7830FFu64);
        assert(ZOBRIST_KEYS[17] == 0x07B374A50CD4BC70u64);
    } else if i == 19 {
        assert(ZOBRIST_KEYS[19] == 0x0B826067A8419F22u64);
        assert(ZOBRIST_KEYS[18] == 0x7DBE5D52AF7830FFu64);
    } else if i == 20 {
        assert(ZOBRIST_KEYS[20] == 0xD303A499CFAC5849u64);
        assert(ZOBRIST_KEYS[19] == 0x0B826067A8419F22u64);
    } else if i == 21 {
        assert(ZOBRIST_KEYS[21] == 0x3E08DAE906FC3D24u64);
        assert(ZOBRIST_KEYS[20] == 0xD303A499CFAC5849u64);
    } else if i == 22 {
        assert(ZOBRIST_KEYS[22] == 0x54E293369A071CA3u64);
        assert(ZOBRIST_KEYS[21] == 0x3E08DAE906FC3D24u64);
    } else if i == 23 {
        assert(ZOBRIST_KEYS[23] == 0x3D8199CCA0BB66F6u64);
        assert(ZOBRIST_KEYS[22] == 0x54E293369A071CA3u64);
    } else if i == 24 {
        assert(ZOBRIST_KEYS[24] == 0x75D4C916259AA48Du64);
        assert(ZOBRIST_KEYS[23] == 0x3D8199CCA0BB66F6u64);
    } else if i == 25 {
        assert(ZOBRIST_KEYS[25] == 0x80DEEDAFED496118u64);
        assert(ZOBRIST_KEYS[24] == 0x75D4C916259AA48Du64);
    } else if i == 26 {
        assert(ZOBRIST_KEYS[26] == 0x83FF5FE3B7707A87u64);
        assert(ZOBRIST_KEYS[25] == 0x80DEEDAFED496118u64);
    } else if i == 27 {
        assert(ZOBRIST_KEYS[27] == 0x02BFAD196789040Au64);
        assert(ZOBRIST_KEYS[26] == 0x83FF5FE3B7707A87u64);
    } else if i == 28 {
        assert(ZOBRIST_KEYS[28] == 0x7335B10775502D11u64);
        assert(ZOBRIST_KEYS[27] == 0x02BFAD196789040Au64);
    } else if i == 29 {
        assert(ZOBRIST_KEYS[29] == 0x5BE08209A3BFDC4Cu64);
        assert(ZOBRIST_KEYS[28] == 0x7335B10775502D11u64);
    } else if i == 30 {
        assert(ZOBRIST_KEYS[30] == 0xA1F68CDAB6A6EEABu64);
        assert(ZOBRIST_KEYS[29] == 0x5BE08209A3BFDC4Cu64);
    } else if i == 31 {
        assert(ZOBRIST_KEYS[31] == 0x48B08CA090AD4A5Eu64);
        assert(ZOBRIST_KEYS[30] == 0xA1F68CDAB6A6EEABu64);
    } else if i == 32 {
        assert(ZOBRIST_KEYS[32] == 0x664F2CF48E7835D5u64);
        assert(ZOBRIST_KEYS[31] == 0x48B08CA090AD4A5Eu64);
    }
}

/// Keys 33 to 64 each follow the one before by the generator step.
#[verifier::rlimit(100)]
proof fn lemma_key_steps_33(i: int)
    requires
        33 <= i < 65,
    ensures
        ZOBRIST_KEYS[i] == lcg_spec(ZOBRIST_KEYS[i - 1]),
{
    if i == 33 {
        assert(ZOBRIST_KEYS[33] == 0xFAB5CB8D3636A2C0u64);
        assert(ZOBRIST_KEYS[32] == 0x664F2CF48E7835D5u64);
    } else if i == 34 {
        assert(ZOBRIST_KEYS[34] == 0xD4B7B314537F5D0Fu64);
        assert(ZOBRIST_KEYS[33] == 0xFAB5CB8D3636A2C0u64);
    } else if i == 35 {
        assert(ZOBRIST_KEYS[35] == 0x899A1BE271B04DF2u64);
        assert(ZOBRIST_KEYS[34] == 0xD4B7B314537F5D0Fu64);
    } else if i == 36 {
        assert(ZOBRIST_KEYS[36] == 0x0C5896FE9FEA42D9u64);
        assert(ZOBRIST_KEYS[35] == 0x899A1BE271B04DF2u64);
    } else if i == 37 {
        assert(ZOBRIST_KEYS[37] == 0xCEBA8AEC9F0BE874u64);
        assert(ZOBRIST_KEYS[36] == 0x0C5896FE9FEA42D9u64);
    } else if i == 38 {
        assert(ZOBRIST_KEYS[38] == 0xCC05D1529054E9B3u64);
        assert(ZOBRIST_KEYS[37] == 0xCEBA8AEC9F0BE874u64);
    } else if i == 39 {
        assert(ZOBRIST_KEYS[39] == 0xF31923E09F7362C6u64);
        assert(ZOBRIST_KEYS[38] == 0xCC05D1529054E9B3u64);
    } else if i == 40 {
        assert(ZOBRIST_KEYS[40] == 0x2B635D5E81EE181Du64);
        assert(ZOBRIST_KEYS[39] == 0xF31923E09F7362C6u64);
    } else if i == 41 {
        assert(ZOBRIST_KEYS[41] == 0xC565F76691192168u64);
        assert(ZOBRIST_KEYS[40] == 0x2B635D5E81EE181Du64);
    } else if i == 42 {
        assert(ZOBRIST_KEYS[42] == 0x959DC35541ECF897u64);
        assert(ZOBRIST_KEYS[41] == 0xC565F76691192168u64);
    } else if i == 43 {
        assert(ZOBRIST_KEYS[43] == 0xA8387474A1451CDAu64);
        assert(ZOBRIST_KEYS[42] == 0x959DC35541ECF897u64);
    } else if i == 44 {
        assert(ZOBRIST_KEYS[44] == 0x591A0C1D1CBFB9A1u64);
        assert(ZOBRIST_KEYS[43] == 0xA8387474A1451CDAu64);
    } else if i == 45 {
        assert(ZOBRIST_KEYS[45] == 0x39A8C9DFF8E7019Cu64);
        assert(ZOBRIST_KEYS[44] == 0x591A0C1D1CBFB9A1u64);
    } else if i == 46 {
        assert(ZOBRIST_KEYS[46] == 0x00977FB2919B2DBBu64);
        assert(ZOBRIST_KEYS[45] == 0x39A8C9DFF8E7019Cu64);
    } else if i == 47 {
        assert(ZOBRIST_KEYS[47] == 0xED319AE2AD35502Eu64);
        assert(ZOBRIST_KEYS[46] == 0x00977FB2919B2DBBu64);
    } else if i == 48 {
        assert(ZOBRIST_KEYS[48] == 0x4447BD302F536B65u64);
        assert(ZOBRIST_KEYS[47] == 0xED319AE2AD35502Eu64);
    } else if i == 49 {
        assert(ZOBRIST_KEYS[49] == 0x9D9018A229217D10u64);
        assert(ZOBRIST_KEYS[48] == 0x4447BD302F536B65u64);
    } else if i == 50 {
        assert(ZOBRIST_KEYS[50] == 0xF5505FD659A56D1Fu64);
        assert(ZOBRIST_KEYS[49] == 0x9D9018A229217D10u64);
    } else if i == 51 {
        assert(ZOBRIST_KEYS[51] == 0x19F5AEC681A910C2u64);
        assert(ZOBRIST_KEYS[50] == 0xF5505FD659A56D1Fu64);
    } else if i == 52 {
        assert(ZOBRIST_KEYS[52] == 0x1A043130FA59B169u64);
        assert(ZOBRIST_KEYS[51] == 0x19F5AEC681A910C2u64);
    } else if i == 53 {
        assert(ZOBRIST_KEYS[53] == 0xA01307A1E64BC7C4u64);
        assert(ZOBRIST_KEYS[52] == 0x1A043130FA59B169u64);
    } else if i == 54 {
        assert(ZOBRIST_KEYS[54] == 0x747D9B117FE7DAC3u64);
        assert(ZOBRIST_KEYS[53] == 0xA01307A1E64BC7C4u64);
    } else if i == 55 {
        assert(ZOBRIST_KEYS[55] == 0x09260331B02EB296u64);
        assert(ZOBRIST_KEYS[54] == 0x747D9B117FE7DAC3u64);
    } else if i == 56 {
        assert(ZOBRIST_KEYS[56] == 0xB365763293834FADu64);
        assert(ZOBRIST_KEYS[55] == 0x09260331B02EB296u64);
    } else if i == 57 {
        assert(ZOBRIST_KEYS[57] == 0x857C160EC5B455B8u64);
        assert(ZOBRIST_KEYS[56] == 0xB365763293834FADu64);
    } else if i == 58 {
        assert(ZOBRIST_KEYS[58] == 0x54AFBCECB2B8DAA7u64);
        assert(ZOBRIST_KEYS[57] == 0x857C160EC5B455B8u64);
    } else if i == 59 {
        assert(ZOBRIST_KEYS[59] == 0x92329F9FED91C9AAu64);
        assert(ZOBRIST_KEYS[58] == 0x54AFBCECB2B8DAA7u64);
    } else if i == 60 {
        assert(ZOBRIST_KEYS[60] == 0x3C58EA11E5054A31u64);
        assert(ZOBRIST_KEYS[59] == 0x92329F9FED91C9AAu64);
    } else if i == 61 {
        assert(ZOBRIST_KEYS[61] == 0xF6531DF993A8DAECu64);
        assert(ZOBRIST_KEYS[60] == 0x3C58EA11E5054A31u64);
    } else if i == 62 {
        assert(ZOBRIST_KEYS[62] == 0x709D0E602C0D10CBu64);
        assert(ZOBRIST_KEYS[61] == 0xF6531DF993A8DAECu64);
    } else if i == 63 {
        assert(ZOBRIST_KEYS[63] == 0xFF58AC873B2F29FEu64);
        assert(ZOBRIST_KEYS[62] == 0x709D0E602C0D10CBu64);
    } else if i == 64 {
        assert(ZOBRIST_KEYS[64] == 0x7928D2319D5CE4F5u64);
        assert(ZOBRIST_KEYS[63] == 0xFF58AC873B2F29FEu64);
    }
}

/// Keys 65 to 96 each follow the one before by the generator step.
#[verifier::rlimit(100)]
proof fn lemma_key_steps_65(i: int)
    requires
        65 <= i < 97,
    ensures
        ZOBRIST_KEYS[i] == lcg_spec(ZOBRIST_KEYS[i - 1]),
{
    if i == 65 {
        assert(ZOBRIST_KEYS[65] == 0x8F23F963B4EA4B60u64);
        assert(ZOBRIST_KEYS[64] == 0x7928D2319D5CE4F5u64);
    } else if i == 66 {
        assert(ZOBRIST_KEYS[66] == 0xCD3563645EDB612Fu64);
        assert(ZOBRIST_KEYS[65] == 0x8F23F963B4EA4B60u64);
    } else if i == 67 {
        assert(ZOBRIST_KEYS[67] == 0xF55AF6FEFD88E792u64);
        assert(ZOBRIST_KEYS[66] == 0xCD3563645EDB612Fu64);
    } else if i == 68 {
        assert(ZOBRIST_KEYS[68] == 0x4E3378309353A3F9u64);
        assert(ZOBRIST_KEYS[67] == 0xF55AF6FEFD88E792u64);
    } else if i == 69 {
        assert(ZOBRIST_KEYS[69] == 0xD37A7040B760DB14u64);
        assert(ZOBRIST_KEYS[68] == 0x4E3378309353A3F9u64);
    } else if i == 70 {
        assert(ZOBRIST_KEYS[70] == 0x488060C5B2C0EFD3u64);
        assert(ZOBRIST_KEYS[69] == 0xD37A7040B760DB14u64);
    } else if i == 71 {
        assert(ZOBRIST_KEYS[71] == 0x40FD2782541A5666u64);
        assert(ZOBRIST_KEYS[70] == 0x488060C5B2C0EFD3u64);
    } else if i == 72 {
        assert(ZOBRIST_KEYS[72] == 0x1032420962434B3Du64);
        assert(ZOBRIST_KEYS[71] == 0x40FD2782541A5666u64);
    } else if i == 73 {
        assert(ZOBRIST_KEYS[73] == 0x4417481E860FFE08u64);
        assert(ZOBRIST_KEYS[72] == 0x1032420962434B3Du64);
    } else if i == 74 {
        assert(ZOBRIST_KEYS[74] == 0x91EC5B7FB1E520B7u64);
        assert(ZOBRIST_KEYS[73] == 0x4417481E860FFE08u64);
    } else if i == 75 {
        assert(ZOBRIST_KEYS[75] == 0x1074A66F466C0A7Au64);
        assert(ZOBRIST_KEYS[74] == 0x91EC5B7FB1E520B7u64);
    } else if i == 76 {
        assert(ZOBRIST_KEYS[76] == 0x5A58206E4299DEC1u64);
        assert(ZOBRIST_KEYS[75] == 0x1074A66F466C0A7Au64);
    } else if i == 77 {
        assert(ZOBRIST_KEYS[77] == 0x79F96F87F44A683Cu64);
        assert(ZOBRIST_KEYS[76] == 0x5A58206E4299DEC1u64);
    } else if i == 78 {
        assert(ZOBRIST_KEYS[78] == 0x014351624D1D97DBu64);
        assert(ZOBRIST_KEYS[77] == 0x79F96F87F44A683Cu64);
    } else if i == 79 {
        assert(ZOBRIST_KEYS[79] == 0x5691A6D59A67D7CEu64);
        assert(ZOBRIST_KEYS[78] == 0x014351624D1D97DBu64);
    } else if i == 80 {
        assert(ZOBRIST_KEYS[80] == 0x47ACC05C629DA285u64);
        assert(ZOBRIST_KEYS[79] == 0x5691A6D59A67D7CEu64);
    } else if i == 81 {
        assert(ZOBRIST_KEYS[81] == 0x7C8EA80894260DB0u64);
        assert(ZOBRIST_KEYS[80] == 0x47ACC05C629DA285u64);
    } else if i == 82 {
        assert(ZOBRIST_KEYS[82] == 0x3BDAF4A61A52393Fu64);
        assert(ZOBRIST_KEYS[81] == 0x7C8EA80894260DB0u64);
    } else if i == 83 {
        assert(ZOBRIST_KEYS[83] == 0xB151BAAD67ECD262u64);
        assert(ZOBRIST_KEYS[82] == 0x3BDAF4A61A52393Fu64);
    } else if i == 84 {
        assert(ZOBRIST_KEYS[84] == 0x2AEF810E43711A89u64);
        assert(ZOBRIST_KEYS[83] == 0xB151BAAD67ECD262u64);
    } else if i == 85 {
        assert(ZOBRIST_KEYS[85] == 0xEFFD51400C302264u64);
        assert(ZOBRIST_KEYS[84] == 0x2AEF810E43711A89u64);
    } else if i == 86 {
        assert(ZOBRIST_KEYS[86] == 0x83A2479AB12128E3u64);
        assert(ZOBRIST_KEYS[85] == 0xEFFD51400C302264u64);
    } else if i == 87 {
        assert(ZOBRIST_KEYS[87] == 0x08504BE6BDA34E36u64);
        assert(ZOBRIST_KEYS[86] == 0x83A2479AB12128E3u64);
    } else if i == 88 {
        assert(ZOBRIST_KEYS[88] == 0x58B95DE4DE570ACDu64);
        assert(ZOBRIST_KEYS[87] == 0x08504BE6BDA34E36u64);
    } else if i == 89 {
        assert(ZOBRIST_KEYS[89] == 0x28DC10EE60611A58u64);
        assert(ZOBRIST_KEYS[88] == 0x58B95DE4DE570ACDu64);
    } else if i == 90 {
        assert(ZOBRIST_KEYS[90] == 0x227B250489C2CAC7u64);
        assert(ZOBRIST_KEYS[89] == 0x28DC10EE60611A58u64);
    } else if i == 91 {
        assert(ZOBRIST_KEYS[91] == 0x910C9130EB10DF4Au64);
        assert(ZOBRIST_KEYS[90] == 0x227B250489C2CAC7u64);
    } else if i == 92 {
        assert(ZOBRIST_KEYS[92] == 0x53B7E0D396367751u64);
        assert(ZOBRIST_KEYS[91] == 0x910C9130EB10DF4Au64);
    } else if i == 93 {
        assert(ZOBRIST_KEYS[93] == 0x998CBE91E250A98Cu64);
        assert(ZOBRIST_KEYS[92] == 0x53B7E0D396367751u64);
    } else if i == 94 {
        assert(ZOBRIST_KEYS[94] == 0x8D79434E022DC2EBu64);
        assert(ZOBRIST_KEYS[93] == 0x998CBE91E250A98Cu64);
    } else if i == 95 {
        assert(ZOBRIST_KEYS[95] == 0xE3F51D1943EC599Eu64);
        assert(ZOBRIST_KEYS[94] == 0x8D79434E022DC2EBu64);
    } else if i == 96 {
        assert(ZOBRIST_KEYS[96] == 0x105E2D93395EA415u64);
        assert(ZOBRIST_KEYS[95] == 0xE3F51D1943EC599Eu64);
    }
}

/// Keys 97 to 128 each follow the one before by the generator step.
#[verifier::rlimit(100)]
proof fn lemma_key_steps_97(i: int)
    requires
        97 <= i < 129,
    ensures
        ZOBRIST_KEYS[i] == lcg_spec(ZOBRIST_KEYS[i - 1]),
{
    if i == 97 {
        assert(ZOBRIST_KEYS[97] == 0x5593E052BCA9C400u64);
        assert(ZOBRIST_KEYS[96] == 0x105E2D93395EA415u64);
    } else if i == 98 {
        assert(ZOBRIST_KEYS[98] == 0x981E9EA16D7AF54Fu64);
        assert(ZOBRIST_KEYS[97] == 0x5593E052BCA9C400u64);
    } else if i == 99 {
        assert(ZOBRIST_KEYS[99] == 0x78FA177670B1D132u64);
        assert(ZOBRIST_KEYS[98] == 0x981E9EA16D7AF54Fu64);
    } else if i == 100 {
        assert(ZOBRIST_KEYS[100] == 0xE67B2C9C978B1519u64);
        assert(ZOBRIST_KEYS[99] == 0x78FA177670B1D132u64);
    } else if i == 101 {
        assert(ZOBRIST_KEYS[101] == 0x9F6709CF4DDE9DB4u64);
        assert(ZOBRIST_KEYS[100] == 0xE67B2C9C978B1519u64);
    } else if i == 102 {
        assert(ZOBRIST_KEYS[102] == 0x1C2BBE98518985F3u64);
        assert(ZOBRIST_KEYS[101] == 0x9F6709CF4DDE9DB4u64);
    } else if i == 103 {
        assert(ZOBRIST_KEYS[103] == 0x34DAFD3EA0769A06u64);
        assert(ZOBRIST_KEYS[102] == 0x1C2BBE98518985F3u64);
    } else if i == 104 {
        assert(ZOBRIST_KEYS[104] == 0x0AC976EB70278E5Du64);
        assert(ZOBRIST_KEYS[103] == 0x34DAFD3EA0769A06u64);
    } else if i == 105 {
        assert(ZOBRIST_KEYS[105] == 0x75D3DF27C61CAAA8u64);
        assert(ZOBRIST_KEYS[104] == 0x0AC976EB70278E5Du64);
    } else if i == 106 {
        assert(ZOBRIST_KEYS[106] == 0x7BC961A636E2D8D7u64);
        assert(ZOBRIST_KEYS[105] == 0x75D3DF27C61CAAA8u64);
    } else if i == 107 {
        assert(ZOBRIST_KEYS[107] == 0x4C7A6F242FFD481Au64);
        assert(ZOBRIST_KEYS[106] == 0x7BC961A636E2D8D7u64);
    } else if i == 108 {
        assert(ZOBRIST_KEYS[108] == 0x49758D0EBCD413E1u64);
        assert(ZOBRIST_KEYS[107] == 0x4C7A6F242FFD481Au64);
    } else if i == 109 {
        assert(ZOBRIST_KEYS[109] == 0xBEB766A6BC809EDCu64);
        assert(ZOBRIST_KEYS[108] == 0x49758D0EBCD413E1u64);
    } else if i == 110 {
        assert(ZOBRIST_KEYS[110] == 0x72D2C103AEDE91FBu64);
        assert(ZOBRIST_KEYS[109] == 0xBEB766A6BC809EDCu64);
    } else if i == 111 {
        assert(ZOBRIST_KEYS[111] == 0x988EFCE59A09AF6Eu64);
        assert(ZOBRIST_KEYS[110] == 0x72D2C103AEDE91FBu64);
    } else if i == 112 {
        assert(ZOBRIST_KEYS[112] == 0xD0B20D539C28E9A5u64);
        assert(ZOBRIST_KEYS[111] == 0x988EFCE59A09AF6Eu64);
    } else if i == 113 {
        assert(ZOBRIST_KEYS[113] == 0xC30BACD7AF8A6E50u64);
        assert(ZOBRIST_KEYS[112] == 0xD0B20D539C28E9A5u64);
    } else if i == 114 {
        assert(ZOBRIST_KEYS[114] == 0xFD41C5E07406955Fu64);
        assert(ZOBRIST_KEYS[113] == 0xC30BACD7AF8A6E50u64);
    } else if i == 115 {
        assert(ZOBRIST_KEYS[115] == 0x9E6AE762C4F4E402u64);
        assert(ZOBRIST_KEYS[114] == 0xFD41C5E07406955Fu64);
    } else if i == 116 {
        assert(ZOBRIST_KEYS[116] == 0xD18F7A2460BA93A9u64);
        assert(ZOBRIST_KEYS[115] == 0x9E6AE762C4F4E402u64);
    } else if i == 117 {
        assert(ZOBRIST_KEYS[117] == 0xA1BBB903A4D14D04u64);
        assert(ZOBRIST_KEYS[116] == 0xD18F7A2460BA93A9u64);
    } else if i == 118 {
        assert(ZOBRIST_KEYS[118] == 0x9B513A49C8BB0703u64);
        assert(ZOBRIST_KEYS[117] == 0xA1BBB903A4D14D04u64);
    } else if i == 119 {
        assert(ZOBRIST_KEYS[119] == 0x4D42C783018139D6u64);
        assert(ZOBRIST_KEYS[118] == 0x9B513A49C8BB0703u64);
    } else if i == 120 {
        assert(ZOBRIST_KEYS[120] == 0x18FBEB45885DD5EDu64);
        assert(ZOBRIST_KEYS[119] == 0x4D42C783018139D6u64);
    } else if i == 121 {
        assert(ZOBRIST_KEYS[121] == 0x965B0E275BF7AEF8u64);
        assert(ZOBRIST_KEYS[120] == 0x18FBEB45885DD5EDu64);
    } else if i == 122 {
        assert(ZOBRIST_KEYS[122] == 0x7408AFBC78164AE7u64);
        assert(ZOBRIST_KEYS[121] == 0x965B0E275BF7AEF8u64);
    } else if i == 123 {
        assert(ZOBRIST_KEYS[123] == 0x7B79B9044EEE44EAu64);
        assert(ZOBRIST_KEYS[122] == 0x7408AFBC78164AE7u64);
    } else if i == 124 {
        assert(ZOBRIST_KEYS[124] == 0x59BFF6AE9FABB471u64);
        assert(ZOBRIST_KEYS[123] == 0x7B79B9044EEE44EAu64);
    } else if i == 125 {
        assert(ZOBRIST_KEYS[125] == 0x2A19CDC5C8DF482Cu64);
        assert(ZOBRIST_KEYS[124] == 0x59BFF6AE9FABB471u64);
    } else if i == 126 {
        assert(ZOBRIST_KEYS[126] == 0xD95999081D11050Bu64);
        assert(ZOBRIST_KEYS[125] == 0x2A19CDC5C8DF482Cu64);
    } else if i == 127 {
        assert(ZOBRIST_KEYS[127] == 0xEB51BFADB84CD93Eu64);
        assert(ZOBRIST_KEYS[126] == 0xD95999081D11050Bu64);
    } else if i == 128 {
        assert(ZOBRIST_KEYS[128] == 0xD37DB89555C57335u64);
        assert(ZOBRIST_KEYS[127] == 0xEB51BFADB84CD93Eu64);
    }
}

/// Keys 129 to 160 each follow the one before by the generator step.
#[verifier::rlimit(100)]
proof fn lemma_key_steps_129(i: int)
    requires
        129 <= i < 161,
    ensures
        ZOBRIST_KEYS[i] == lcg_spec(ZOBRIST_KEYS[i - 1]),
{
    if i == 129 {
        assert(ZOBRIST_KEYS[129] == 0x555B51BCC91D0CA0u64);
        assert(ZOBRIST_KEYS[128] == 0xD37DB89555C57335u64);
    } else if i == 130 {
        assert(ZOBRIST_KEYS[130] == 0x09F8E73B93E6196Fu64);
        assert(ZOBRIST_KEYS[129] == 0x555B51BCC91D0CA0u64);
    } else if i == 131 {
        assert(ZOBRIST_KEYS[131] == 0x18E15853DF130AD2u64);
        assert(ZOBRIST_KEYS[130] == 0x09F8E73B93E6196Fu64);
    } else if i == 132 {
        assert(ZOBRIST_KEYS[132] == 0x86992A1D44589639u64);
        assert(ZOBRIST_KEYS[131] == 0x18E15853DF130AD2u64);
    } else if i == 133 {
        assert(ZOBRIST_KEYS[133] == 0x7EF337B948AD3054u64);
        assert(ZOBRIST_KEYS[132] == 0x86992A1D44589639u64);
    } else if i == 134 {
        assert(ZOBRIST_KEYS[134] == 0x80EB7808B9B6AC13u64);
        assert(ZOBRIST_KEYS[133] == 0x7EF337B948AD3054u64);
    } else if i == 135 {
        assert(ZOBRIST_KEYS[135] == 0xBD4D96E806F02DA6u64);
        assert(ZOBRIST_KEYS[134] == 0x80EB7808B9B6AC13u64);
    } else if i == 136 {
        assert(ZOBRIST_KEYS[136] == 0x34E1B33F2FE2E17Du64);
        assert(ZOBRIST_KEYS[135] == 0xBD4D96E806F02DA6u64);
    } else if i == 137 {
        assert(ZOBRIST_KEYS[137] == 0x67F6575349E72748u64);
        assert(ZOBRIST_KEYS[136] == 0x34E1B33F2FE2E17Du64);
    } else if i == 138 {
        assert(ZOBRIST_KEYS[138] == 0x99EA51A7DE6E20F7u64);
        assert(ZOBRIST_KEYS[137] == 0x67F6575349E72748u64);
    } else if i == 139 {
        assert(ZOBRIST_KEYS[139] == 0x24637CA736E0D5BAu64);
        assert(ZOBRIST_KEYS[138] == 0x99EA51A7DE6E20F7u64);
    } else if i == 140 {
        assert(ZOBRIST_KEYS[140] == 0x870BE31EC4365901u64);
        assert(ZOBRIST_KEYS[139] == 0x24637CA736E0D5BAu64);
    } else if i == 141 {
        assert(ZOBRIST_KEYS[141] == 0xD5A49A7984B1A57Cu64);
        assert(ZOBRIST_KEYS[140] == 0x870BE31EC4365901u64);
    } else if i == 142 {
        assert(ZOBRIST_KEYS[142] == 0xE7E62B018CE61C1Bu64);
        assert(ZOBRIST_KEYS[141] == 0xD5A49A7984B1A57Cu64);
    } else if i == 143 {
        assert(ZOBRIST_KEYS[143] == 0xC853CEB04382D70Eu64);
        assert(ZOBRIST_KEYS[142] == 0xE7E62B018CE61C1Bu64);
    } else if i == 144 {
        assert(ZOBRIST_KEYS[144] == 0xED538A6E113D40C5u64);
        assert(ZOBRIST_KEYS[143] == 0xC853CEB04382D70Eu64);
    } else if i == 145 {
        assert(ZOBRIST_KEYS[145] == 0x1C64C9E790F69EF0u64);
        assert(ZOBRIST_KEYS[144] == 0xED538A6E113D40C5u64);
    } else if i == 146 {
        assert(ZOBRIST_KEYS[146] == 0xA97E21078D4A817Fu64);
        assert(ZOBRIST_KEYS[145] == 0x1C64C9E790F69EF0u64);
    } else if i == 147 {
        assert(ZOBRIST_KEYS[147] == 0x63A0330CD6A945A2u64);
        assert(ZOBRIST_KEYS[146] == 0xA97E21078D4A817Fu64);
    } else if i == 148 {
        assert(ZOBRIST_KEYS[148] == 0x6116A9EA4BFE1CC9u64);
        assert(ZOBRIST_KEYS[147] == 0x63A0330CD6A945A2u64);
    } else if i == 149 {
        assert(ZOBRIST_KEYS[149] == 0x99EDE428D05747A4u64);
        assert(ZOBRIST_KEYS[148] == 0x6116A9EA4BFE1CC9u64);
    } else if i == 150 {
        assert(ZOBRIST_KEYS[150] == 0xEB25E9EC45BD7523u64);
        assert(ZOBRIST_KEYS[149] == 0x99EDE428D05747A4u64);
    } else if i == 151 {
        assert(ZOBRIST_KEYS[151] == 0x71FA99D2C8307576u64);
        assert(ZOBRIST_KEYS[150] == 0xEB25E9EC45BD7523u64);
    } else if i == 152 {
        assert(ZOBRIST_KEYS[152] == 0xA54E1BAD97DFB10Du64);
        assert(ZOBRIST_KEYS[151] == 0x71FA99D2C8307576u64);
    } else if i == 153 {
        assert(ZOBRIST_KEYS[153] == 0xEBCAC8658B201398u64);
        assert(ZOBRIST_KEYS[152] == 0xA54E1BAD97DFB10Du64);
    } else if i == 154 {
        assert(ZOBRIST_KEYS[154] == 0x62E4E691DD3B5B07u64);
        assert(ZOBRIST_KEYS[153] == 0xEBCAC8658B201398u64);
    } else if i == 155 {
        assert(ZOBRIST_KEYS[155] == 0x30A06EB05C11FA8Au64);
        assert(ZOBRIST_KEYS[154] == 0x62E4E691DD3B5B07u64);
    } else if i == 156 {
        assert(ZOBRIST_KEYS[156] == 0x06BBED45DC2D0191u64);
        assert(ZOBRIST_KEYS[155] == 0x30A06EB05C11FA8Au64);
    } else if i == 157 {
        assert(ZOBRIST_KEYS[157] == 0x4512D626F47CB6CCu64);
        assert(ZOBRIST_KEYS[156] == 0x06BBED45DC2D0191u64);
    } else if i == 158 {
        assert(ZOBRIST_KEYS[158] == 0x94865858C4BED72Bu64);
        assert(ZOBRIST_KEYS[157] == 0x4512D626F47CB6CCu64);
    } else if i == 159 {
        assert(ZOBRIST_KEYS[159] == 0xF2C6063739B8A8DEu64);
        assert(ZOBRIST_KEYS[158] == 0x94865858C4BED72Bu64);
    } else if i == 160 {
        assert(ZOBRIST_KEYS[160] == 0xE5D8AA78E9D95255u64);
        assert(ZOBRIST_KEYS[159] == 0xF2C6063739B8A8DEu64);
    }
}

/// Keys 161 to 192 each follow the one before by the generator step.
#[verifier::rlimit(100)]
proof fn lemma_key_steps_161(i: int)
    requires
        161 <= i < 193,
    ensures
        ZOBRIST_KEYS[i] == lcg_spec(ZOBRIST_KEYS[i - 1]),
{
    if i == 161 {
        assert(ZOBRIST_KEYS[161] == 0x980B8BA209EC2540u64);
        assert(ZOBRIST_KEYS[160] == 0xE5D8AA78E9D95255u64);
    } else if i == 162 {
        assert(ZOBRIST_KEYS[162] == 0x83D7D7A78AA4CD8Fu64);
        assert(ZOBRIST_KEYS[161] == 0x980B8BA209EC2540u64);
    } else if i == 163 {
        assert(ZOBRIST_KEYS[163] == 0x3BC28ECF30949472u64);
        assert(ZOBRIST_KEYS[162] == 0x83D7D7A78AA4CD8Fu64);
    } else if i == 164 {
        assert(ZOBRIST_KEYS[164] == 0x0AC1819A75842759u64);
        assert(ZOBRIST_KEYS[163] == 0x3BC28ECF30949472u64);
    } else if i == 165 {
        assert(ZOBRIST_KEYS[165] == 0xEA03443081F492F4u64);
        assert(ZOBRIST_KEYS[164] == 0x0AC1819A75842759u64);
    } else if i == 166 {
        assert(ZOBRIST_KEYS[166] == 0x3F7F2C5C1C506233u64);
        assert(ZOBRIST_KEYS[165] == 0xEA03443081F492F4u64);
    } else if i == 167 {
        assert(ZOBRIST_KEYS[167] == 0xB04330A31DEF1146u64);
        assert(ZOBRIST_KEYS[166] == 0x3F7F2C5C1C506233u64);
    } else if i == 168 {
        assert(ZOBRIST_KEYS[168] == 0xC76C1A98A9BD449Du64);
        assert(ZOBRIST_KEYS[167] == 0xB04330A31DEF1146u64);
    } else if i == 169 {
        assert(ZOBRIST_KEYS[169] == 0x79CE93AA3E1773E8u64);
        assert(ZOBRIST_KEYS[168] == 0xC76C1A98A9BD449Du64);
    } else if i == 170 {
        assert(ZOBRIST_KEYS[170] == 0x261C7F10DA0EF917u64);
        assert(ZOBRIST_KEYS[169] == 0x79CE93AA3E1773E8u64);
    } else if i == 171 {
        assert(ZOBRIST_KEYS[171] == 0x31EF3F5787FEB35Au64);
        assert(ZOBRIST_KEYS[170] == 0x261C7F10DA0EF917u64);
    } else if i == 172 {
        assert(ZOBRIST_KEYS[172] == 0xC0031DA85588AE21u64);
        assert(ZOBRIST_KEYS[171] == 0x31EF3F5787FEB35Au64);
    } else if i == 173 {
        assert(ZOBRIST_KEYS[173] == 0x5C15A090F4057C1Cu64);
        assert(ZOBRIST_KEYS[172] == 0xC0031DA85588AE21u64);
    } else if i == 174 {
        assert(ZOBRIST_KEYS[174] == 0x7F67C6FE213C363Bu64);
        assert(ZOBRIST_KEYS[173] == 0x5C15A090F4057C1Cu64);
    } else if i == 175 {
        assert(ZOBRIST_KEYS[175] == 0xE4B3852BC23B4EAEu64);
        assert(ZOBRIST_KEYS[174] == 0x7F67C6FE213C363Bu64);
    } else if i == 176 {
        assert(ZOBRIST_KEYS[176] == 0x373EEE01FB22A7E5u64);
        assert(ZOBRIST_KEYS[175] == 0xE4B3852BC23B4EAEu64);
    } else if i == 177 {
        assert(ZOBRIST_KEYS[177] == 0x247089B302129F90u64);
        assert(ZOBRIST_KEYS[176] == 0x373EEE01FB22A7E5u64);
    } else if i == 178 {
        assert(ZOBRIST_KEYS[178] == 0xB3D6868330A5FD9Fu64);
        assert(ZOBRIST_KEYS[177] == 0x247089B302129F90u64);
    } else if i == 179 {
        assert(ZOBRIST_KEYS[179] == 0x047AEE8BAEF1F742u64);
        assert(ZOBRIST_KEYS[178] == 0xB3D6868330A5FD9Fu64);
    } else if i == 180 {
        assert(ZOBRIST_KEYS[180] == 0x754ABCAD4303B5E9u64);
        assert(ZOBRIST_KEYS[179] == 0x047AEE8BAEF1F742u64);
    } else if i == 181 {
        assert(ZOBRIST_KEYS[181] == 0xFE41C351A2EA1244u64);
        assert(ZOBRIST_KEYS[180] == 0x754ABCAD4303B5E9u64);
    } else if i == 182 {
        assert(ZOBRIST_KEYS[182] == 0x346DA6478B307343u64);
        assert(ZOBRIST_KEYS[181] == 0xFE41C351A2EA1244u64);
    } else if i == 183 {
        assert(ZOBRIST_KEYS[183] == 0xDB52B85172190116u64);
        assert(ZOBRIST_KEYS[182] == 0x346DA6478B307343u64);
    } else if i == 184 {
        assert(ZOBRIST_KEYS[184] == 0xEBAB472897249C2Du64);
        assert(ZOBRIST_KEYS[183] == 0xDB52B85172190116u64);
    } else if i == 185 {
        assert(ZOBRIST_KEYS[185] == 0x49744F31F4824838u64);
        assert(ZOBRIST_KEYS[184] == 0xEBAB472897249C2Du64);
    } else if i == 186 {
        assert(ZOBRIST_KEYS[186] == 0xDEDF3EB03CB9FB27u64);
        assert(ZOBRIST_KEYS[185] == 0x49744F31F4824838u64);
    } else if i == 187 {
        assert(ZOBRIST_KEYS[187] == 0x9F60CF43A964002Au64);
        assert(ZOBRIST_KEYS[186] == 0xDEDF3EB03CB9FB27u64);
    } else if i == 188 {
        assert(ZOBRIST_KEYS[188] == 0x6B8DD20EEA825EB1u64);
        assert(ZOBRIST_KEYS[187] == 0x9F60CF43A964002Au64);
    } else if i == 189 {
        assert(ZOBRIST_KEYS[189] == 0x50A2598F8650F56Cu64);
        assert(ZOBRIST_KEYS[188] == 0x6B8DD20EEA825EB1u64);
    } else if i == 190 {
        assert(ZOBRIST_KEYS[190] == 0x14B8B752A53F394Bu64);
        assert(ZOBRIST_KEYS[189] == 0x50A2598F8650F56Cu64);
    } else if i == 191 {
        assert(ZOBRIST_KEYS[191] == 0xCF0C35FDFD97C87Eu64);
        assert(ZOBRIST_KEYS[190] == 0x14B8B752A53F394Bu64);
    } else if i == 192 {
        assert(ZOBRIST_KEYS[192] == 0x5AB5F8F5F0E24175u64);
        assert(ZOBRIST_KEYS[191] == 0xCF0C35FDFD97C87Eu64);
    }
}

/// Keys 193 to 224 each follow the one before by the generator step.
#[verifier::rlimit(100)]
proof fn lemma_key_steps_193(i: int)
    requires
        193 <= i < 225,
    ensures
        ZOBRIST_KEYS[i] == lcg_spec(ZOBRIST_KEYS[i - 1]),
{
    if i == 193 {
        assert(ZOBRIST_KEYS[193] == 0x235AA5EA62BF0DE0u64);
        assert(ZOBRIST_KEYS[192] == 0x5AB5F8F5F0E24175u64);
    } else if i == 194 {
        assert(ZOBRIST_KEYS[194] == 0x42AF0E60AE3F11AFu64);
        assert(ZOBRIST_KEYS[193] == 0x235AA5EA62BF0DE0u64);
    } else if i == 195 {
        assert(ZOBRIST_KEYS[195] == 0x353D04A7211E6E12u64);
        assert(ZOBRIST_KEYS[194] == 0x42AF0E60AE3F11AFu64);
    } else if i == 196 {
        assert(ZOBRIST_KEYS[196] == 0xDF1E06DB4AD5C879u64);
        assert(ZOBRIST_KEYS[195] == 0x353D04A7211E6E12u64);
    } else if i == 197 {
        assert(ZOBRIST_KEYS[197] == 0x3A7E1161C7DCC594u64);
        assert(ZOBRIST_KEYS[196] == 0xDF1E06DB4AD5C879u64);
    } else if i == 198 {
        assert(ZOBRIST_KEYS[198] == 0xFE00B5008E5EA853u64);
        assert(ZOBRIST_KEYS[197] == 0x3A7E1161C7DCC594u64);
    } else if i == 199 {
        assert(ZOBRIST_KEYS[199] == 0xA0DD3CE08FDB44E6u64);
        assert(ZOBRIST_KEYS[198] == 0xFE00B5008E5EA853u64);
    } else if i == 200 {
        assert(ZOBRIST_KEYS[200] == 0x5981BDD769FEB7BDu64);
        assert(ZOBRIST_KEYS[199] == 0xA0DD3CE08FDB44E6u64);
    } else if i == 201 {
        assert(ZOBRIST_KEYS[201] == 0x228D77F803559088u64);
        assert(ZOBRIST_KEYS[200] == 0x5981BDD769FEB7BDu64);
    } else if i == 202 {
        assert(ZOBRIST_KEYS[202] == 0x6892FB5C7F4D6137u64);
        assert(ZOBRIST_KEYS[201] == 0x228D77F803559088u64);
    } else if i == 203 {
        assert(ZOBRIST_KEYS[203] == 0xEED92179A43EE0FAu64);
        assert(ZOBRIST_KEYS[202] == 0x6892FB5C7F4D6137u64);
    } else if i == 204 {
        assert(ZOBRIST_KEYS[204] == 0x4CF0CDB131931341u64);
        assert(ZOBRIST_KEYS[203] == 0xEED92179A43EE0FAu64);
    } else if i == 205 {
        assert(ZOBRIST_KEYS[205] == 0xB80365FB25A422BCu64);
        assert(ZOBRIST_KEYS[204] == 0x4CF0CDB131931341u64);
    } else if i == 206 {
        assert(ZOBRIST_KEYS[206] == 0xB300EE3509E8E05Bu64);
        assert(ZOBRIST_KEYS[205] == 0xB80365FB25A422BCu64);
    } else if i == 207 {
        assert(ZOBRIST_KEYS[207] == 0x5DBCBDE0D59B164Eu64);
        assert(ZOBRIST_KEYS[206] == 0xB300EE3509E8E05Bu64);
    } else if i == 208 {
        assert(ZOBRIST_KEYS[208] == 0xAFDF079597211F05u64);
        assert(ZOBRIST_KEYS[207] == 0x5DBCBDE0D59B164Eu64);
    } else if i == 209 {
        assert(ZOBRIST_KEYS[209] == 0x20E40A2180867030u64);
        assert(ZOBRIST_KEYS[208] == 0xAFDF079597211F05u64);
    } else if i == 210 {
        assert(ZOBRIST_KEYS[210] == 0x8E891222CCA109BFu64);
        assert(ZOBRIST_KEYS[209] == 0x20E40A2180867030u64);
    } else if i == 211 {
        assert(ZOBRIST_KEYS[211] == 0x38259A5333B6F8E2u64);
        assert(ZOBRIST_KEYS[210] == 0x8E891222CCA109BFu64);
    } else if i == 212 {
        assert(ZOBRIST_KEYS[212] == 0x0BDB75E2C7935F09u64);
        assert(ZOBRIST_KEYS[211] == 0x38259A5333B6F8E2u64);
    } else if i == 213 {
        assert(ZOBRIST_KEYS[213] == 0xAEA7E6F024B1ACE4u64);
        assert(ZOBRIST_KEYS[212] == 0x0BDB75E2C7935F09u64);
    } else if i == 214 {
        assert(ZOBRIST_KEYS[214] == 0xA7ED04BAE01C0163u64);
        assert(ZOBRIST_KEYS[213] == 0xAEA7E6F024B1ACE4u64);
    } else if i == 215 {
        assert(ZOBRIST_KEYS[215] == 0xF7E660A373A2DCB6u64);
        assert(ZOBRIST_KEYS[214] == 0xA7ED04BAE01C0163u64);
    } else if i == 216 {
        assert(ZOBRIST_KEYS[216] == 0xAA8079E69474974Du64);
        assert(ZOBRIST_KEYS[215] == 0xF7E660A373A2DCB6u64);
    } else if i == 217 {
        assert(ZOBRIST_KEYS[217] == 0xC06C4DFCD2C64CD8u64);
        assert(ZOBRIST_KEYS[216] == 0xAA8079E69474974Du64);
    } else if i == 218 {
        assert(ZOBRIST_KEYS[218] == 0xB2EA8BB33E1A2B47u64);
        assert(ZOBRIST_KEYS[217] == 0xC06C4DFCD2C64CD8u64);
    } else if i == 219 {
        assert(ZOBRIST_KEYS[219] == 0x5DA1275F21CC55CAu64);
        assert(ZOBRIST_KEYS[218] == 0xB2EA8BB33E1A2B47u64);
    } else if i == 220 {
        assert(ZOBRIST_KEYS[220] == 0xEBE28AE42D73CBD1u64);
        assert(ZOBRIST_KEYS[219] == 0x5DA1275F21CC55CAu64);
    } else if i == 221 {
        assert(ZOBRIST_KEYS[221] == 0x32CAF4CC1384040Cu64);
        assert(ZOBRIST_KEYS[220] == 0xEBE28AE42D73CBD1u64);
    } else if i == 222 {
        assert(ZOBRIST_KEYS[222] == 0x6B927432CE9A2B6Bu64);
        assert(ZOBRIST_KEYS[221] == 0x32CAF4CC1384040Cu64);
    } else if i == 223 {
        assert(ZOBRIST_KEYS[223] == 0x22A7BF59CD52381Eu64);
        assert(ZOBRIST_KEYS[222] == 0x6B927432CE9A2B6Bu64);
    } else if i == 224 {
        assert(ZOBRIST_KEYS[224] == 0xF21709ED6A284095u64);
        assert(ZOBRIST_KEYS[223] == 0x22A7BF59CD52381Eu64);
    }
}

/// Keys 225 to 256 each follow the one before by the generator step.
#[verifier::rlimit(100)]
proof fn lemma_key_steps_225(i: int)
    requires
        225 <= i < 257,
    ensures
        ZOBRIST_KEYS[i] == lcg_spec(ZOBRIST_KEYS[i - 1]),
{
    if i == 225 {
        assert(ZOBRIST_KEYS[225] == 0x00781CAF6B3DC680u64);
        assert(ZOBRIST_KEYS[224] == 0xF21709ED6A284095u64);
    } else if i == 226 {
        assert(ZOBRIST_KEYS[226] == 0x0EDB32EAFF3CE5CFu64);
        assert(ZOBRIST_KEYS[225] == 0x00781CAF6B3DC680u64);
    } else if i == 227 {
        assert(ZOBRIST_KEYS[227] == 0x9C99577B409897B2u64);
        assert(ZOBRIST_KEYS[226] == 0x0EDB32EAFF3CE5CFu64);
    } else if i == 228 {
        assert(ZOBRIST_KEYS[228] == 0x2A04395828157999u64);
        assert(ZOBRIST_KEYS[227] == 0x9C99577B409897B2u64);
    } else if i == 229 {
        assert(ZOBRIST_KEYS[229] == 0xB081345EDC8DC834u64);
        assert(ZOBRIST_KEYS[228] == 0x2A04395828157999u64);
    } else if i == 230 {
        assert(ZOBRIST_KEYS[230] == 0xF898F6AF08E97E73u64);
        assert(ZOBRIST_KEYS[229] == 0xB081345EDC8DC834u64);
    } else if i == 231 {
        assert(ZOBRIST_KEYS[231] == 0xDBC305571B1CC886u64);
        assert(ZOBRIST_KEYS[230] == 0xF898F6AF08E97E73u64);
    } else if i == 232 {
        assert(ZOBRIST_KEYS[232] == 0x2247ED1880EF3ADDu64);
        assert(ZOBRIST_KEYS[231] == 0xDBC305571B1CC886u64);
    } else if i == 233 {
        assert(ZOBRIST_KEYS[233] == 0x54E85E542E497D28u64);
        assert(ZOBRIST_KEYS[232] == 0x2247ED1880EF3ADDu64);
    } else if i == 234 {
        assert(ZOBRIST_KEYS[234] == 0xB443B53747B15957u64);
        assert(ZOBRIST_KEYS[233] == 0x54E85E542E497D28u64);
    } else if i == 235 {
        assert(ZOBRIST_KEYS[235] == 0x0D22C3D160895E9Au64);
        assert(ZOBRIST_KEYS[234] == 0xB443B53747B15957u64);
    } else if i == 236 {
        assert(ZOBRIST_KEYS[236] == 0x88D7274CDD1D8861u64);
        assert(ZOBRIST_KEYS[235] == 0x0D22C3D160895E9Au64);
    } else if i == 237 {
        assert(ZOBRIST_KEYS[237] == 0x1296696DA8B5995Cu64);
        assert(ZOBRIST_KEYS[236] == 0x88D7274CDD1D8861u64);
    } else if i == 238 {
        assert(ZOBRIST_KEYS[238] == 0xC5E02ADD48F41A7Bu64);
        assert(ZOBRIST_KEYS[237] == 0x1296696DA8B5995Cu64);
    } else if i == 239 {
        assert(ZOBRIST_KEYS[239] == 0xDB359D24D10A2DEEu64);
        assert(ZOBRIST_KEYS[238] == 0xC5E02ADD48F41A7Bu64);
    } else if i == 240 {
        assert(ZOBRIST_KEYS[240] == 0x64C2FA112680A625u64);
        assert(ZOBRIST_KEYS[239] == 0xDB359D24D10A2DEEu64);
    } else if i == 241 {
        assert(ZOBRIST_KEYS[241] == 0xD47105513DFA10D0u64);
        assert(ZOBRIST_KEYS[240] == 0x64C2FA112680A625u64);
    } else if i == 242 {
        assert(ZOBRIST_KEYS[242] == 0xC3013C9F73C3A5DFu64);
        assert(ZOBRIST_KEYS[241] == 0xD47105513DFA10D0u64);
    } else if i == 243 {
        assert(ZOBRIST_KEYS[243] == 0x8E8868451EE04A82u64);
        assert(ZOBRIST_KEYS[242] == 0xC3013C9F73C3A5DFu64);
    } else if i == 244 {
        assert(ZOBRIST_KEYS[244] == 0x7AB2A97A9F751829u64);
        assert(ZOBRIST_KEYS[243] == 0x8E8868451EE04A82u64);
    } else if i == 245 {
        assert(ZOBRIST_KEYS[245] == 0xB2CC00B051D61784u64);
        assert(ZOBRIST_KEYS[244] == 0x7AB2A97A9F751829u64);
    } else if i == 246 {
        assert(ZOBRIST_KEYS[246] == 0xB6F435E16F881F83u64);
        assert(ZOBRIST_KEYS[245] == 0xB2CC00B051D61784u64);
    } else if i == 247 {
        assert(ZOBRIST_KEYS[247] == 0x0669841055360856u64);
        assert(ZOBRIST_KEYS[246] == 0xB6F435E16F881F83u64);
    } else if i == 248 {
        assert(ZOBRIST_KEYS[248] == 0xF18ADEAE2217A26Du64);
        assert(ZOBRIST_KEYS[247] == 0x0669841055360856u64);
    } else if i == 249 {
        assert(ZOBRIST_KEYS[249] == 0x1CD4502794942178u64);
        assert(ZOBRIST_KEYS[248] == 0xF18ADEAE2217A26Du64);
    } else if i == 250 {
        assert(ZOBRIST_KEYS[250] == 0x0528EB68ACE3EB67u64);
        assert(ZOBRIST_KEYS[249] == 0x1CD4502794942178u64);
    } else if i == 251 {
        assert(ZOBRIST_KEYS[251] == 0xE445A2500432FB6Au64);
        assert(ZOBRIST_KEYS[250] == 0x0528EB68ACE3EB67u64);
    } else if i == 252 {
        assert(ZOBRIST_KEYS[252] == 0x4ABB8396CBC948F1u64);
        assert(ZOBRIST_KEYS[251] == 0xE445A2500432FB6Au64);
    } else if i == 253 {
        assert(ZOBRIST_KEYS[253] == 0x30B05045A53DE2ACu64);
        assert(ZOBRIST_KEYS[252] == 0x4ABB8396CBC948F1u64);
    } else if i == 254 {
        assert(ZOBRIST_KEYS[254] == 0x60C67942B4D7AD8Bu64);
        assert(ZOBRIST_KEYS[253] == 0x30B05045A53DE2ACu64);
    } else if i == 255 {
        assert(ZOBRIST_KEYS[255] == 0xFAE12A6C064FF7BEu64);
        assert(ZOBRIST_KEYS[254] == 0x60C67942B4D7AD8Bu64);
    } else if i == 256 {
        assert(ZOBRIST_KEYS[256] == 0xABB2961B58F34FB5u64);
        assert(ZOBRIST_KEYS[255] == 0xFAE12A6C064FF7BEu64);
    }
}

/// Keys 257 to 288 each follow the one before by the generator step.
#[verifier::rlimit(100)]
proof fn lemma_key_steps_257(i: int)
    requires
        257 <= i < 289,
    ensures
        ZOBRIST_KEYS[i] == lcg_spec(ZOBRIST_KEYS[i - 1]),
{
    if i == 257 {
        assert(ZOBRIST_KEYS[257] == 0x5236F7866F104F20u64);
        assert(ZOBRIST_KEYS[256] == 0xABB2961B58F34FB5u64);
    } else if i == 258 {
        assert(ZOBRIST_KEYS[258] == 0xE11A93D5222649EFu64);
        assert(ZOBRIST_KEYS[257] == 0x5236F7866F104F20u64);
    } else if i == 259 {
        assert(ZOBRIST_KEYS[259] == 0x320A3D25F2EB1152u64);
        assert(ZOBRIST_KEYS[258] == 0xE11A93D5222649EFu64);
    } else if i == 260 {
        assert(ZOBRIST_KEYS[260] == 0x3A226E0CB50B3AB9u64);
        assert(ZOBRIST_KEYS[259] == 0x320A3D25F2EB1152u64);
    } else if i == 261 {
        assert(ZOBRIST_KEYS[261] == 0xE74A7D08762F9AD4u64);
        assert(ZOBRIST_KEYS[260] == 0x3A226E0CB50B3AB9u64);
    } else if i == 262 {
        assert(ZOBRIST_KEYS[262] == 0xFC2BDB8D68F8E493u64);
        assert(ZOBRIST_KEYS[261] == 0xE74A7D08762F9AD4u64);
    } else if i == 263 {
        assert(ZOBRIST_KEYS[263] == 0x763D80FD921B9C26u64);
        assert(ZOBRIST_KEYS[262] == 0xFC2BDB8D68F8E493u64);
    } else if i == 264 {
        assert(ZOBRIST_KEYS[264] == 0x327DDAA882D6CDFDu64);
        assert(ZOBRIST_KEYS[263] == 0x763D80FD921B9C26u64);
    } else if i == 265 {
        assert(ZOBRIST_KEYS[265] == 0x8FAEC9AC879B39C8u64);
        assert(ZOBRIST_KEYS[264] == 0x327DDAA882D6CDFDu64);
    } else if i == 266 {
        assert(ZOBRIST_KEYS[266] == 0x771C50C0D0C2E177u64);
        assert(ZOBRIST_KEYS[265] == 0x8FAEC9AC879B39C8u64);
    } else if i == 267 {
        assert(ZOBRIST_KEYS[267] == 0xFE10BF3BE5C62C3Au64);
        assert(ZOBRIST_KEYS[266] == 0x771C50C0D0C2E177u64);
    } else if i == 268 {
        assert(ZOBRIST_KEYS[268] == 0x56406FAEA0F00D81u64);
        assert(ZOBRIST_KEYS[267] == 0xFE10BF3BE5C62C3Au64);
    } else if i == 269 {
        assert(ZOBRIST_KEYS[269] == 0xC20E026F8061DFFCu64);
        assert(ZOBRIST_KEYS[268] == 0x56406FAEA0F00D81u64);
    } else if i == 270 {
        assert(ZOBRIST_KEYS[270] == 0x0220908B4465E49Bu64);
        assert(ZOBRIST_KEYS[269] == 0xC20E026F8061DFFCu64);
    } else if i == 271 {
        assert(ZOBRIST_KEYS[271] == 0xD5A8F5539BF0958Eu64);
        assert(ZOBRIST_KEYS[270] == 0x0220908B4465E49Bu64);
    } else if i == 272 {
        assert(ZOBRIST_KEYS[272] == 0xEA25E6F0EE893D45u64);
        assert(ZOBRIST_KEYS[271] == 0xD5A8F5539BF0958Eu64);
    } else if i == 273 {
        assert(ZOBRIST_KEYS[273] == 0xD2A6B76120158170u64);
        assert(ZOBRIST_KEYS[272] == 0xEA25E6F0EE893D45u64);
    } else if i == 274 {
        assert(ZOBRIST_KEYS[274] == 0xF8F1761DDC95D1FFu64);
        assert(ZOBRIST_KEYS[273] == 0xD2A6B76120158170u64);
    } else if i == 275 {
        assert(ZOBRIST_KEYS[275] == 0xE919E28AFE55EC22u64);
        assert(ZOBRIST_KEYS[274] == 0xF8F1761DDC95D1FFu64);
    } else if i == 276 {
        assert(ZOBRIST_KEYS[276] == 0x0449B630D470E149u64);
        assert(ZOBRIST_KEYS[275] == 0xE919E28AFE55EC22u64);
    } else if i == 277 {
        assert(ZOBRIST_KEYS[277] == 0x3E8411E21A7F5224u64);
        assert(ZOBRIST_KEYS[276] == 0x0449B630D470E149u64);
    } else if i == 278 {
        assert(ZOBRIST_KEYS[278] == 0x7EA2C434487CCDA3u64);
        assert(ZOBRIST_KEYS[277] == 0x3E8411E21A7F5224u64);
    } else if i == 279 {
        assert(ZOBRIST_KEYS[279] == 0x986DA7FCB33A83F6u64);
        assert(ZOBRIST_KEYS[278] == 0x7EA2C434487CCDA3u64);
    } else if i == 280 {
        assert(ZOBRIST_KEYS[280] == 0xA8D1BA4E5655BD8Du64);
        assert(ZOBRIST_KEYS[279] == 0x986DA7FCB33A83F6u64);
    } else if i == 281 {
        assert(ZOBRIST_KEYS[281] == 0xD4E3820EDC93C618u64);
        assert(ZOBRIST_KEYS[280] == 0xA8D1BA4E5655BD8Du64);
    } else if i == 282 {
        assert(ZOBRIST_KEYS[282] == 0x060BAA92789F3B87u64);
        assert(ZOBRIST_KEYS[281] == 0xD4E3820EDC93C618u64);
    } else if i == 283 {
        assert(ZOBRIST_KEYS[283] == 0xE731BE29E37FF10Au64);
        assert(ZOBRIST_KEYS[282] == 0x060BAA92789F3B87u64);
    } else if i == 284 {
        assert(ZOBRIST_KEYS[284] == 0x266AFC80B04AD611u64);
        assert(ZOBRIST_KEYS[283] == 0xE731BE29E37FF10Au64);
    } else if i == 285 {
        assert(ZOBRIST_KEYS[285] == 0xF7E55DABB8A6914Cu64);
        assert(ZOBRIST_KEYS[284] == 0x266AFC80B04AD611u64);
    } else if i == 286 {
        assert(ZOBRIST_KEYS[286] == 0x416309BA2FFFBFABu64);
        assert(ZOBRIST_KEYS[285] == 0xF7E55DABB8A6914Cu64);
    } else if i == 287 {
        assert(ZOBRIST_KEYS[287] == 0x439E18D999F9075Eu64);
        assert(ZOBRIST_KEYS[286] == 0x416309BA2FFFBFABu64);
    } else if i == 288 {
        assert(ZOBRIST_KEYS[288] == 0x860A3CC8C48B6ED5u64);
        assert(ZOBRIST_KEYS[287] == 0x439E18D999F9075Eu64);
    }
}

/// Keys 289 to 320 each follow the one before by the generator step.
#[verifier::rlimit(100)]
proof fn lemma_key_steps_289(i: int)
    requires
        289 <= i < 321,
    ensures
        ZOBRIST_KEYS[i] == lcg_spec(ZOBRIST_KEYS[i - 1]),
{
    if i == 289 {
        assert(ZOBRIST_KEYS[289] == 0x6EB80DCA6DDEA7C0u64);
        assert(ZOBRIST_KEYS[288] == 0x860A3CC8C48B6ED5u64);
    } else if i == 290 {
        assert(ZOBRIST_KEYS[290] == 0x946DDDBA5F833E0Fu64);
        assert(ZOBRIST_KEYS[289] == 0x6EB80DCA6DDEA7C0u64);
    } else if i == 291 {
        assert(ZOBRIST_KEYS[291] == 0xBA20AD166FFDDAF2u64);
        assert(ZOBRIST_KEYS[290] == 0x946DDDBA5F833E0Fu64);
    } else if i == 292 {
        assert(ZOBRIST_KEYS[292] == 0x83D0BA49DD7F0BD9u64);
        assert(ZOBRIST_KEYS[291] == 0xBA20AD166FFDDAF2u64);
    } else if i == 293 {
        assert(ZOBRIST_KEYS[293] == 0x85296AF83EEA3D74u64);
        assert(ZOBRIST_KEYS[292] == 0x83D0BA49DD7F0BD9u64);
    } else if i == 294 {
        assert(ZOBRIST_KEYS[294] == 0xA0FBF6506F94DAB3u64);
        assert(ZOBRIST_KEYS[293] == 0x85296AF83EEA3D74u64);
    } else if i == 295 {
        assert(ZOBRIST_KEYS[295] == 0xD5B2DF04DB3FBFC6u64);
        assert(ZOBRIST_KEYS[294] == 0xA0FBF6506F94DAB3u64);
    } else if i == 296 {
        assert(ZOBRIST_KEYS[296] == 0xAAA80EF587FD711Du64);
        assert(ZOBRIST_KEYS[295] == 0xD5B2DF04DB3FBFC6u64);
    } else if i == 297 {
        assert(ZOBRIST_KEYS[297] == 0x45CCD54F0BF2C668u64);
        assert(ZOBRIST_KEYS[296] == 0xAAA80EF587FD711Du64);
    } else if i == 298 {
        assert(ZOBRIST_KEYS[298] == 0x9B1738CDDC09F997u64);
        assert(ZOBRIST_KEYS[297] == 0x45CCD54F0BF2C668u64);
    } else if i == 299 {
        assert(ZOBRIST_KEYS[299] == 0x19D86B49B0DD49DAu64);
        assert(ZOBRIST_KEYS[298] == 0x9B1738CDDC09F997u64);
    } else if i == 300 {
        assert(ZOBRIST_KEYS[300] == 0x9DF34C3B89D2A2A1u64);
        assert(ZOBRIST_KEYS[299] == 0x19D86B49B0DD49DAu64);
    } else if i == 301 {
        assert(ZOBRIST_KEYS[301] == 0x6026358323D0F69Cu64);
        assert(ZOBRIST_KEYS[300] == 0x9DF34C3B89D2A2A1u64);
    } else if i == 302 {
        assert(ZOBRIST_KEYS[302] == 0x2162DD92C6463EBBu64);
        assert(ZOBRIST_KEYS[301] == 0x6026358323D0F69Cu64);
    } else if i == 303 {
        assert(ZOBRIST_KEYS[303] == 0x76EAC309B1B64D2Eu64);
        assert(ZOBRIST_KEYS[302] == 0x2162DD92C6463EBBu64);
    } else if i == 304 {
        assert(ZOBRIST_KEYS[304] == 0x119B8A773882E465u64);
        assert(ZOBRIST_KEYS[303] == 0x76EAC309B1B64D2Eu64);
    } else if i == 305 {
        assert(ZOBRIST_KEYS[305] == 0xFEE0213AC080C210u64);
        assert(ZOBRIST_KEYS[304] == 0x119B8A773882E465u64);
    } else if i == 306 {
        assert(ZOBRIST_KEYS[306] == 0x50E919B0619F8E1Fu64);
        assert(ZOBRIST_KEYS[305] == 0xFEE0213AC080C210u64);
    } else if i == 307 {
        assert(ZOBRIST_KEYS[307] == 0x1DB2377033FFDDC2u64);
        assert(ZOBRIST_KEYS[306] == 0x50E919B0619F8E1Fu64);
    } else if i == 308 {
        assert(ZOBRIST_KEYS[308] == 0x275100DFB44EBA69u64);
        assert(ZOBRIST_KEYS[307] == 0x1DB2377033FFDDC2u64);
    } else if i == 309 {
        assert(ZOBRIST_KEYS[309] == 0xE728C6E362D55CC4u64);
        assert(ZOBRIST_KEYS[308] == 0x275100DFB44EBA69u64);
    } else if i == 310 {
        assert(ZOBRIST_KEYS[310] == 0xAA7B3BAC5E020BC3u64);
        assert(ZOBRIST_KEYS[309] == 0xE728C6E362D55CC4u64);
    } else if i == 311 {
        assert(ZOBRIST_KEYS[311] == 0x4FC9BB643E184F96u64);
        assert(ZOBRIST_KEYS[310] == 0xAA7B3BAC5E020BC3u64);
    } else if i == 312 {
        assert(ZOBRIST_KEYS[312] == 0xD6D07810CB76E8ADu64);
        assert(ZOBRIST_KEYS[311] == 0x4FC9BB643E184F96u64);
    } else if i == 313 {
        assert(ZOBRIST_KEYS[313] == 0x50D16F14816D3AB8u64);
        assert(ZOBRIST_KEYS[312] == 0xD6D07810CB76E8ADu64);
    } else if i == 314 {
        assert(ZOBRIST_KEYS[314] == 0x9CAFA2A8B4D41BA7u64);
        assert(ZOBRIST_KEYS[313] == 0x50D16F14816D3AB8u64);
    } else if i == 315 {
        assert(ZOBRIST_KEYS[315] == 0x9DF204E0A69B36AAu64);
        assert(ZOBRIST_KEYS[314] == 0x9CAFA2A8B4D41BA7u64);
    } else if i == 316 {
        assert(ZOBRIST_KEYS[316] == 0x655F7A1689C07331u64);
        assert(ZOBRIST_KEYS[315] == 0x9DF204E0A69B36AAu64);
    } else if i == 317 {
        assert(ZOBRIST_KEYS[317] == 0xF282629E3EE60FECu64);
        assert(ZOBRIST_KEYS[316] == 0x655F7A1689C07331u64);
    } else if i == 318 {
        assert(ZOBRIST_KEYS[318] == 0x43EDF7A17C1A61CBu64);
        assert(ZOBRIST_KEYS[317] == 0xF282629E3EE60FECu64);
    } else if i == 319 {
        assert(ZOBRIST_KEYS[319] == 0xD39BDC850DB566FEu64);
        assert(ZOBRIST_KEYS[318] == 0x43EDF7A17C1A61CBu64);
    } else if i == 320 {
        assert(ZOBRIST_KEYS[320] == 0xA7BF487DB8389DF5u64);
        assert(ZOBRIST_KEYS[319] == 0xD39BDC850DB566FEu64);
    }
}

/// Keys 321 to 352 each follow the one before by the generator step.
#[verifier::rlimit(100)]
proof fn lemma_key_steps_321(i: int)
    requires
        321 <= i < 353,
    ensures
        ZOBRIST_KEYS[i] == lcg_spec(ZOBRIST_KEYS[i - 1]),
{
    if i == 321 {
        assert(ZOBRIST_KEYS[321] == 0x847EE7E61B50D060u64);
        assert(ZOBRIST_KEYS[320] == 0xA7BF487DB8389DF5u64);
    } else if i == 322 {
        assert(ZOBRIST_KEYS[322] == 0x5E996B44A3DBC22Fu64);
        assert(ZOBRIST_KEYS[321] == 0x847EE7E61B50D060u64);
    } else if i == 323 {
        assert(ZOBRIST_KEYS[323] == 0x7C61EEAAC3B8F492u64);
        assert(ZOBRIST_KEYS[322] == 0x5E996B44A3DBC22Fu64);
    } else if i == 324 {
        assert(ZOBRIST_KEYS[324] == 0x64F21F87D138ECF9u64);
        assert(ZOBRIST_KEYS[323] == 0x7C61EEAAC3B8F492u64);
    } else if i == 325 {
        assert(ZOBRIST_KEYS[325] == 0x380B0F6AD4E5B014u64);
        assert(ZOBRIST_KEYS[324] == 0x64F21F87D138ECF9u64);
    } else if i == 326 {
        assert(ZOBRIST_KEYS[326] == 0x09864E5DC1C560D3u64);
        assert(ZOBRIST_KEYS[325] == 0x380B0F6AD4E5B014u64);
    } else if i == 327 {
        assert(ZOBRIST_KEYS[327] == 0x2E5846D1F0F13366u64);
        assert(ZOBRIST_KEYS[326] == 0x09864E5DC1C560D3u64);
    } else if i == 328 {
        assert(ZOBRIST_KEYS[328] == 0x230E2D812CAB243Du64);
        assert(ZOBRIST_KEYS[327] == 0x2E5846D1F0F13366u64);
    } else if i == 329 {
        assert(ZOBRIST_KEYS[329] == 0x8374E173EBF82308u64);
        assert(ZOBRIST_KEYS[328] == 0x230E2D812CAB243Du64);
    } else if i == 330 {
        assert(ZOBRIST_KEYS[330] == 0x9F79692A4F0EA1B7u64);
        assert(ZOBRIST_KEYS[329] == 0x8374E173EBF82308u64);
    } else if i == 331 {
        assert(ZOBRIST_KEYS[331] == 0x073D29D892B6B77Au64);
        assert(ZOBRIST_KEYS[330] == 0x9F79692A4F0EA1B7u64);
    } else if i == 332 {
        assert(ZOBRIST_KEYS[332] == 0x46BC729C688D47C1u64);
        assert(ZOBRIST_KEYS[331] == 0x073D29D892B6B77Au64);
    } else if i == 333 {
        assert(ZOBRIST_KEYS[333] == 0x395E95507E2ADD3Cu64);
        assert(ZOBRIST_KEYS[332] == 0x46BC729C688D47C1u64);
    } else if i == 334 {
        assert(ZOBRIST_KEYS[334] == 0x8B68E568FC9D28DBu64);
        assert(ZOBRIST_KEYS[333] == 0x395E95507E2ADD3Cu64);
    } else if i == 335 {
        assert(ZOBRIST_KEYS[335] == 0xB83A7E5E21C354CEu64);
        assert(ZOBRIST_KEYS[334] == 0x8B68E568FC9D28DBu64);
    } else if i == 336 {
        assert(ZOBRIST_KEYS[336] == 0xBB2648DE51B59B85u64);
        assert(ZOBRIST_KEYS[335] == 0xB83A7E5E21C354CEu64);
    } else if i == 337 {
        assert(ZOBRIST_KEYS[337] == 0xC3CA285C6CE3D2B0u64);
        assert(ZOBRIST_KEYS[336] == 0xBB2648DE51B59B85u64);
    } else if i == 338 {
        assert(ZOBRIST_KEYS[338] == 0x293F39D90168DA3Fu64);
        assert(ZOBRIST_KEYS[337] == 0xC3CA285C6CE3D2B0u64);
    } else if i == 339 {
        assert(ZOBRIST_KEYS[339] == 0xAEEFAA3BF5C61F62u64);
        assert(ZOBRIST_KEYS[338] == 0x293F39D90168DA3Fu64);
    } else if i == 340 {
        assert(ZOBRIST_KEYS[340] == 0x4335F0D1D0D6A389u64);
        assert(ZOBRIST_KEYS[339] == 0xAEEFAA3BF5C61F62u64);
    } else if i == 341 {
        assert(ZOBRIST_KEYS[341] == 0x3B097F8A03003764u64);
        assert(ZOBRIST_KEYS[340] == 0x4335F0D1D0D6A389u64);
    } else if i == 342 {
        assert(ZOBRIST_KEYS[342] == 0x01A73A64871FD9E3u64);
        assert(ZOBRIST_KEYS[341] == 0x3B097F8A03003764u64);
    } else if i == 343 {
        assert(ZOBRIST_KEYS[343] == 0x3E1B6153BA376B36u64);
        assert(ZOBRIST_KEYS[342] == 0x01A73A64871FD9E3u64);
    } else if i == 344 {
        assert(ZOBRIST_KEYS[344] == 0x1F25472B9FC323CDu64);
        assert(ZOBRIST_KEYS[343] == 0x3E1B6153BA376B36u64);
    } else if i == 345 {
        assert(ZOBRIST_KEYS[345] == 0x4AFD3CA98DC87F58u64);
        assert(ZOBRIST_KEYS[344] == 0x1F25472B9FC323CDu64);
    } else if i == 346 {
        assert(ZOBRIST_KEYS[346] == 0x18DE909B990A8BC7u64);
        assert(ZOBRIST_KEYS[345] == 0x4AFD3CA98DC87F58u64);
    } else if i == 347 {
        assert(ZOBRIST_KEYS[347] == 0xCEEC8A62886CCC4Au64);
        assert(ZOBRIST_KEYS[346] == 0x18DE909B990A8BC7u64);
    } else if i == 348 {
        assert(ZOBRIST_KEYS[348] == 0x595AD579CAF22051u64);
        assert(ZOBRIST_KEYS[347] == 0xCEEC8A62886CCC4Au64);
    } else if i == 349 {
        assert(ZOBRIST_KEYS[349] == 0xC60550579D245E8Cu64);
        assert(ZOBRIST_KEYS[348] == 0x595AD579CAF22051u64);
    } else if i == 350 {
        assert(ZOBRIST_KEYS[350] == 0x9F4362B3392F93EBu64);
        assert(ZOBRIST_KEYS[349] == 0xC60550579D245E8Cu64);
    } else if i == 351 {
        assert(ZOBRIST_KEYS[351] == 0x23D323487AED169Eu64);
        assert(ZOBRIST_KEYS[350] == 0x9F4362B3392F93EBu64);
    } else if i == 352 {
        assert(ZOBRIST_KEYS[352] == 0x398B24B34342DD15u64);
        assert(ZOBRIST_KEYS[351] == 0x23D323487AED169Eu64);
    }
}

/// Keys 353 to 384 each follow the one before by the generator step.
#[verifier::rlimit(100)]
proof fn lemma_key_steps_353(i: int)
    requires
        353 <= i < 385,
    ensures
        ZOBRIST_KEYS[i] == lcg_spec(ZOBRIST_KEYS[i - 1]),
{
    if i == 353 {
        assert(ZOBRIST_KEYS[353] == 0x861BBD9DDF0EC900u64);
        assert(ZOBRIST_KEYS[352] == 0x398B24B34342DD15u64);
    } else if i == 354 {
        assert(ZOBRIST_KEYS[354] == 0x8B3FAE2E7FB7D64Fu64);
        assert(ZOBRIST_KEYS[353] == 0x861BBD9DDF0EC900u64);
    } else if i == 355 {
        assert(ZOBRIST_KEYS[355] == 0xF72E0C89CE045E32u64);
        assert(ZOBRIST_KEYS[354] == 0x8B3FAE2E7FB7D64Fu64);
    } else if i == 356 {
        assert(ZOBRIST_KEYS[356] == 0xF31278380400DE19u64);
        assert(ZOBRIST_KEYS[355] == 0xF72E0C89CE045E32u64);
    } else if i == 357 {
        assert(ZOBRIST_KEYS[357] == 0xF772DC29CA49F2B4u64);
        assert(ZOBRIST_KEYS[356] == 0xF31278380400DE19u64);
    } else if i == 358 {
        assert(ZOBRIST_KEYS[358] == 0xD016D4EDE89276F3u64);
        assert(ZOBRIST_KEYS[357] == 0xF772DC29CA49F2B4u64);
    } else if i == 359 {
        assert(ZOBRIST_KEYS[359] == 0x31304CF7E197F706u64);
        assert(ZOBRIST_KEYS[358] == 0xD016D4EDE89276F3u64);
    } else if i == 360 {
        assert(ZOBRIST_KEYS[360] == 0xCAFF8AD29127E75Du64);
        assert(ZOBRIST_KEYS[359] == 0x31304CF7E197F706u64);
    } else if i == 361 {
        assert(ZOBRIST_KEYS[361] == 0x916AFCC78C534FA8u64);
        assert(ZOBRIST_KEYS[360] == 0xCAFF8AD29127E75Du64);
    } else if i == 362 {
        assert(ZOBRIST_KEYS[362] == 0x1BC171DB3358D9D7u64);
        assert(ZOBRIST_KEYS[361] == 0x916AFCC78C534FA8u64);
    } else if i == 363 {
        assert(ZOBRIST_KEYS[363] == 0xCF9BB7ADB03A751Au64);
        assert(ZOBRIST_KEYS[362] == 0x1BC171DB3358D9D7u64);
    } else if i == 364 {
        assert(ZOBRIST_KEYS[364] == 0xFA0A39CFD1E7FCE1u64);
        assert(ZOBRIST_KEYS[363] == 0xCF9BB7ADB03A751Au64);
    } else if i == 365 {
        assert(ZOBRIST_KEYS[365] == 0xD0C4B0CEEE9793DCu64);
        assert(ZOBRIST_KEYS[364] == 0xFA0A39CFD1E7FCE1u64);
    } else if i == 366 {
        assert(ZOBRIST_KEYS[366] == 0x83C3C4067972A2FBu64);
        assert(ZOBRIST_KEYS[365] == 0xD0C4B0CEEE9793DCu64);
    } else if i == 367 {
        assert(ZOBRIST_KEYS[367] == 0xD569C11C8F7FAC6Eu64);
        assert(ZOBRIST_KEYS[366] == 0x83C3C4067972A2FBu64);
    } else if i == 368 {
        assert(ZOBRIST_KEYS[368] == 0x373B2C8A8B6962A5u64);
        assert(ZOBRIST_KEYS[367] == 0xD569C11C8F7FAC6Eu64);
    } else if i == 369 {
        assert(ZOBRIST_KEYS[369] == 0x144C13A326E6B350u64);
        assert(ZOBRIST_KEYS[368] == 0x373B2C8A8B6962A5u64);
    } else if i == 370 {
        assert(ZOBRIST_KEYS[370] == 0x366AC60B5E79B65Fu64);
        assert(ZOBRIST_KEYS[369] == 0x144C13A326E6B350u64);
    } else if i == 371 {
        assert(ZOBRIST_KEYS[371] == 0x3AFAA90B4D90B102u64);
        assert(ZOBRIST_KEYS[370] == 0x366AC60B5E79B65Fu64);
    } else if i == 372 {
        assert(ZOBRIST_KEYS[372] == 0xC753ED13FFD09CA9u64);
        assert(ZOBRIST_KEYS[371] == 0x3AFAA90B4D90B102u64);
    } else if i == 373 {
        assert(ZOBRIST_KEYS[373] == 0x236E848DC727E204u64);
        assert(ZOBRIST_KEYS[372] == 0xC753ED13FFD09CA9u64);
    } else if i == 374 {
        assert(ZOBRIST_KEYS[374] == 0x488C6A3B7EDE3803u64);
        assert(ZOBRIST_KEYS[373] == 0x236E848DC727E204u64);
    } else if i == 375 {
        assert(ZOBRIST_KEYS[375] == 0xD7183062FFFFD6D6u64);
        assert(ZOBRIST_KEYS[374] == 0x488C6A3B7EDE3803u64);
    } else if i == 376 {
        assert(ZOBRIST_KEYS[376] == 0xD358C93375826EEDu64);
        assert(ZOBRIST_KEYS[375] == 0xD7183062FFFFD6D6u64);
    } else if i == 377 {
        assert(ZOBRIST_KEYS[377] == 0x32EBE258404D93F8u64);
        assert(ZOBRIST_KEYS[376] == 0xD358C93375826EEDu64);
    } else if i == 378 {
        assert(ZOBRIST_KEYS[378] == 0x4D5DE49580CA8BE7u64);
        assert(ZOBRIST_KEYS[377] == 0x32EBE258404D93F8u64);
    } else if i == 379 {
        assert(ZOBRIST_KEYS[379] == 0x0C36AFB217DCB1EAu64);
        assert(ZOBRIST_KEYS[378] == 0x4D5DE49580CA8BE7u64);
    } else if i == 380 {
        assert(ZOBRIST_KEYS[380] == 0xC2F16E0AAAA7DD71u64);
        assert(ZOBRIST_KEYS[379] == 0x0C36AFB217DCB1EAu64);
    } else if i == 381 {
        assert(ZOBRIST_KEYS[381] == 0x3C3EE856AC897D2Cu64);
        assert(ZOBRIST_KEYS[380] == 0xC2F16E0AAAA7DD71u64);
    } else if i == 382 {
        assert(ZOBRIST_KEYS[382] == 0xF067803E6B47560Bu64);
        assert(ZOBRIST_KEYS[381] == 0x3C3EE856AC897D2Cu64);
    } else if i == 383 {
        assert(ZOBRIST_KEYS[383] == 0xB60B37AF8F08163Eu64);
        assert(ZOBRIST_KEYS[382] == 0xF067803E6B47560Bu64);
    } else if i == 384 {
        assert(ZOBRIST_KEYS[384] == 0x5F80048578F22C35u64);
        assert(ZOBRIST_KEYS[383] == 0xB60B37AF8F08163Eu64);
    }
}

/// Keys 385 to 416 each follow the one before by the generator step.
#[verifier::rlimit(100)]
proof fn lemma_key_steps_385(i: int)
    requires
        385 <= i < 417,
    ensures
        ZOBRIST_KEYS[i] == lcg_spec(ZOBRIST_KEYS[i - 1]),
{
    if i == 385 {
        assert(ZOBRIST_KEYS[385] == 0xEAD51159D4C091A0u64);
        assert(ZOBRIST_KEYS[384] == 0x5F80048578F22C35u64);
    } else if i == 386 {
        assert(ZOBRIST_KEYS[386] == 0xD7CD3145279F7A6Fu64);
        assert(ZOBRIST_KEYS[385] == 0xEAD51159D4C091A0u64);
    } else if i == 387 {
        assert(ZOBRIST_KEYS[387] == 0xE0652CFD42C817D2u64);
        assert(ZOBRIST_KEYS[386] == 0xD7CD3145279F7A6Fu64);
    } else if i == 388 {
        assert(ZOBRIST_KEYS[388] == 0x43ADA5972D9EDF39u64);
        assert(ZOBRIST_KEYS[387] == 0xE0652CFD42C817D2u64);
    } else if i == 389 {
        assert(ZOBRIST_KEYS[389] == 0x0BF2DF75A53F0554u64);
        assert(ZOBRIST_KEYS[388] == 0x43ADA5972D9EDF39u64);
    } else if i == 390 {
        assert(ZOBRIST_KEYS[390] == 0x53D6032E51041D13u64);
        assert(ZOBRIST_KEYS[389] == 0x0BF2DF75A53F0554u64);
    } else if i == 391 {
        assert(ZOBRIST_KEYS[391] == 0x7AAC9D31CF9C0AA6u64);
        assert(ZOBRIST_KEYS[390] == 0x53D6032E51041D13u64);
    } else if i == 392 {
        assert(ZOBRIST_KEYS[392] == 0x3513136859BBBA7Du64);
        assert(ZOBRIST_KEYS[391] == 0x7AAC9D31CF9C0AA6u64);
    } else if i == 393 {
        assert(ZOBRIST_KEYS[393] == 0xD2AC8AF485AC4C48u64);
        assert(ZOBRIST_KEYS[392] == 0x3513136859BBBA7Du64);
    } else if i == 394 {
        assert(ZOBRIST_KEYS[394] == 0xC8103360B670A1F7u64);
        assert(ZOBRIST_KEYS[393] == 0xD2AC8AF485AC4C48u64);
    } else if i == 395 {
        assert(ZOBRIST_KEYS[395] == 0x7922020F825082BAu64);
        assert(ZOBRIST_KEYS[394] == 0xC8103360B670A1F7u64);
    } else if i == 396 {
        assert(ZOBRIST_KEYS[396] == 0xFD568C3C1EAAC201u64);
        assert(ZOBRIST_KEYS[395] == 0x7922020F825082BAu64);
    } else if i == 397 {
        assert(ZOBRIST_KEYS[397] == 0xE3248E6F483F1A7Cu64);
        assert(ZOBRIST_KEYS[396] == 0xFD568C3C1EAAC201u64);
    } else if i == 398 {
        assert(ZOBRIST_KEYS[398] == 0xEDE55A4932CEAD1Bu64);
        assert(ZOBRIST_KEYS[397] == 0xE3248E6F483F1A7Cu64);
    } else if i == 399 {
        assert(ZOBRIST_KEYS[399] == 0xEDADC1FF3253540Eu64);
        assert(ZOBRIST_KEYS[398] == 0xEDE55A4932CEAD1Bu64);
    } else if i == 400 {
        assert(ZOBRIST_KEYS[400] == 0x6878553C3AE639C5u64);
        assert(ZOBRIST_KEYS[399] == 0xEDADC1FF3253540Eu64);
    } else if i == 401 {
        assert(ZOBRIST_KEYS[401] == 0x69DCE514A43163F0u64);
        assert(ZOBRIST_KEYS[400] == 0x6878553C3AE639C5u64);
    } else if i == 402 {
        assert(ZOBRIST_KEYS[402] == 0xCA20892EBF5A227Fu64);
        assert(ZOBRIST_KEYS[401] == 0x69DCE514A43163F0u64);
    } else if i == 403 {
        assert(ZOBRIST_KEYS[403] == 0x96B807AB194792A2u64);
        assert(ZOBRIST_KEYS[402] == 0xCA20892EBF5A227Fu64);
    } else if i == 404 {
        assert(ZOBRIST_KEYS[404] == 0xDEDCDAC75B04A5C9u64);
        assert(ZOBRIST_KEYS[403] == 0x96B807AB194792A2u64);
    } else if i == 405 {
        assert(ZOBRIST_KEYS[405] == 0x50DBE9F26F745CA4u64);
        assert(ZOBRIST_KEYS[404] == 0xDEDCDAC75B04A5C9u64);
    } else if i == 406 {
        assert(ZOBRIST_KEYS[406] == 0xB692E375E4452623u64);
        assert(ZOBRIST_KEYS[405] == 0x50DBE9F26F745CA4u64);
    } else if i == 407 {
        assert(ZOBRIST_KEYS[407] == 0x8FA5672EFBD99276u64);
        assert(ZOBRIST_KEYS[406] == 0xB692E375E4452623u64);
    } else if i == 408 {
        assert(ZOBRIST_KEYS[408] == 0xEF93518D72FCCA0Du64);
        assert(ZOBRIST_KEYS[407] == 0x8FA5672EFBD99276u64);
    } else if i == 409 {
        assert(ZOBRIST_KEYS[409] == 0x48F7DECE0BA47898u64);
        assert(ZOBRIST_KEYS[408] == 0xEF93518D72FCCA0Du64);
    } else if i == 410 {
        assert(ZOBRIST_KEYS[410] == 0xEF738ABCEB9C1C07u64);
        assert(ZOBRIST_KEYS[409] == 0x48F7DECE0BA47898u64);
    } else if i == 411 {
        assert(ZOBRIST_KEYS[411] == 0xCE6EAB0037D2E78Au64);
        assert(ZOBRIST_KEYS[410] == 0xEF738ABCEB9C1C07u64);
    } else if i == 412 {
        assert(ZOBRIST_KEYS[412] == 0x636DFBFA23A9AA91u64);
        assert(ZOBRIST_KEYS[411] == 0xCE6EAB0037D2E78Au64);
    } else if i == 413 {
        assert(ZOBRIST_KEYS[413] == 0xD4CF2E08BA3D6BCCu64);
        assert(ZOBRIST_KEYS[412] == 0x636DFBFA23A9AA91u64);
    } else if i == 414 {
        assert(ZOBRIST_KEYS[414] == 0x29BBEC087A69A82Bu64);
        assert(ZOBRIST_KEYS[413] == 0xD4CF2E08BA3D6BCCu64);
    } else if i == 415 {
        assert(ZOBRIST_KEYS[415] == 0xBFE356B18B6E65DEu64);
        assert(ZOBRIST_KEYS[414] == 0x29BBEC087A69A82Bu64);
    } else if i == 416 {
        assert(ZOBRIST_KEYS[416] == 0x08763A65708E8B55u64);
        assert(ZOBRIST_KEYS[415] == 0xBFE356B18B6E65DEu64);
    }
}

/// Keys 417 to 448 each follow the one before by the generator step.
#[verifier::rlimit(100)]
proof fn lemma_key_steps_417(i: int)
    requires
        417 <= i < 449,
    ensures
        ZOBRIST_KEYS[i] == lcg_spec(ZOBRIST_KEYS[i - 1]),
{
    if i == 417 {
        assert(ZOBRIST_KEYS[417] == 0x45FB686FCC0E2A40u64);
        assert(ZOBRIST_KEYS[416] == 0x08763A65708E8B55u64);
    } else if i == 418 {
        assert(ZOBRIST_KEYS[418] == 0xD0AEB36A741AAE8Fu64);
        assert(ZOBRIST_KEYS[417] == 0x45FB686FCC0E2A40u64);
    } else if i == 419 {
        assert(ZOBRIST_KEYS[419] == 0xAF7A4F4BA9EC2172u64);
        assert(ZOBRIST_KEYS[418] == 0xD0AEB36A741AAE8Fu64);
    } else if i == 420 {
        assert(ZOBRIST_KEYS[420] == 0xEACC7E7F49DAF059u64);
        assert(ZOBRIST_KEYS[419] == 0xAF7A4F4BA9EC2172u64);
    } else if i == 421 {
        assert(ZOBRIST_KEYS[421] == 0x8375ECEFDFECE7F4u64);
        assert(ZOBRIST_KEYS[420] == 0xEACC7E7F49DAF059u64);
    } else if i == 422 {
        assert(ZOBRIST_KEYS[422] == 0x3C5021634C225333u64);
        assert(ZOBRIST_KEYS[421] == 0x8375ECEFDFECE7F4u64);
    } else if i == 423 {
        assert(ZOBRIST_KEYS[423] == 0x4C89595CF1656E46u64);
        assert(ZOBRIST_KEYS[422] == 0x3C5021634C225333u64);
    } else if i == 424 {
        assert(ZOBRIST_KEYS[424] == 0x565703AAAEAE9D9Du64);
        assert(ZOBRIST_KEYS[423] == 0x4C89595CF1656E46u64);
    } else if i == 425 {
        assert(ZOBRIST_KEYS[425] == 0x33EEA82DA4AB18E8u64);
        assert(ZOBRIST_KEYS[424] == 0x565703AAAEAE9D9Du64);
    } else if i == 426 {
        assert(ZOBRIST_KEYS[426] == 0xB113D3F829DDFA17u64);
        assert(ZOBRIST_KEYS[425] == 0x33EEA82DA4AB18E8u64);
    } else if i == 427 {
        assert(ZOBRIST_KEYS[427] == 0x0E32015FD5E0E05Au64);
        assert(ZOBRIST_KEYS[426] == 0xB113D3F829DDFA17u64);
    } else if i == 428 {
        assert(ZOBRIST_KEYS[428] == 0x7C9BBAC16B9D9721u64);
        assert(ZOBRIST_KEYS[427] == 0x0E32015FD5E0E05Au64);
    } else if i == 429 {
        assert(ZOBRIST_KEYS[429] == 0xA3C1B445D249711Cu64);
        assert(ZOBRIST_KEYS[428] == 0x7C9BBAC16B9D9721u64);
    } else if i == 430 {
        assert(ZOBRIST_KEYS[430] == 0xFD25935682B9473Bu64);
        assert(ZOBRIST_KEYS[429] == 0xA3C1B445D249711Cu64);
    } else if i == 431 {
        assert(ZOBRIST_KEYS[431] == 0x0C0224E8D5A64BAEu64);
        assert(ZOBRIST_KEYS[430] == 0xFD25935682B9473Bu64);
    } else if i == 432 {
        assert(ZOBRIST_KEYS[432] == 0xAC125841B97420E5u64);
        assert(ZOBRIST_KEYS[431] == 0x0C0224E8D5A64BAEu64);
    } else if i == 433 {
        assert(ZOBRIST_KEYS[433] == 0xB79010A94E6BE490u64);
        assert(ZOBRIST_KEYS[432] == 0xAC125841B97420E5u64);
    } else if i == 434 {
        assert(ZOBRIST_KEYS[434] == 0x36CF81200E921E9Fu64);
        assert(ZOBRIST_KEYS[433] == 0xB79010A94E6BE490u64);
    } else if i == 435 {
        assert(ZOBRIST_KEYS[435] == 0x80B7DF720AD2C442u64);
        assert(ZOBRIST_KEYS[434] == 0x36CF81200E921E9Fu64);
    } else if i == 436 {
        assert(ZOBRIST_KEYS[436] == 0x67C59C73403ABEE9u64);
        assert(ZOBRIST_KEYS[435] == 0x80B7DF720AD2C442u64);
    } else if i == 437 {
        assert(ZOBRIST_KEYS[437] == 0x68879E71B00DA744u64);
        assert(ZOBRIST_KEYS[436] == 0x67C59C73403ABEE9u64);
    } else if i == 438 {
        assert(ZOBRIST_KEYS[438] == 0xF63D78603A5CA443u64);
        assert(ZOBRIST_KEYS[437] == 0x68879E71B00DA744u64);
    } else if i == 439 {
        assert(ZOBRIST_KEYS[439] == 0x0CEC95D3AE2C9E16u64);
        assert(ZOBRIST_KEYS[438] == 0xF63D78603A5CA443u64);
    } else if i == 440 {
        assert(ZOBRIST_KEYS[440] == 0x7D5435E1427A352Du64);
        assert(ZOBRIST_KEYS[439] == 0x0CEC95D3AE2C9E16u64);
    } else if i == 441 {
        assert(ZOBRIST_KEYS[441] == 0x93CCE9E596752D38u64);
        assert(ZOBRIST_KEYS[440] == 0x7D5435E1427A352Du64);
    } else if i == 442 {
        assert(ZOBRIST_KEYS[442] == 0xB2C92CF67D073C27u64);
        assert(ZOBRIST_KEYS[441] == 0x93CCE9E596752D38u64);
    } else if i == 443 {
        assert(ZOBRIST_KEYS[443] == 0xF73754C61F376D2Au64);
        assert(ZOBRIST_KEYS[442] == 0xB2C92CF67D073C27u64);
    } else if i == 444 {
        assert(ZOBRIST_KEYS[444] == 0x6F7683DBF4BF87B1u64);
        assert(ZOBRIST_KEYS[443] == 0xF73754C61F376D2Au64);
    } else if i == 445 {
        assert(ZOBRIST_KEYS[445] == 0xDCF3A57387682A6Cu64);
        assert(ZOBRIST_KEYS[444] == 0x6F7683DBF4BF87B1u64);
    } else if i == 446 {
        assert(ZOBRIST_KEYS[446] == 0x0449022F329E8A4Bu64);
        assert(ZOBRIST_KEYS[445] == 0xDCF3A57387682A6Cu64);
    } else if i == 447 {
        assert(ZOBRIST_KEYS[447] == 0xE0D89A6B4588057Eu64);
        assert(ZOBRIST_KEYS[446] == 0x0449022F329E8A4Bu64);
    } else if i == 448 {
        assert(ZOBRIST_KEYS[448] == 0xB2CAC0CB455FFA75u64);
        assert(ZOBRIST_KEYS[447] == 0xE0D89A6B4588057Eu64);
    }
}

/// Keys 449 to 480 each follow the one before by the generator step.
#[verifier::rlimit(100)]
proof fn lemma_key_steps_449(i: int)
    requires
        449 <= i < 481,
    ensures
        ZOBRIST_KEYS[i] == lcg_spec(ZOBRIST_KEYS[i - 1]),
{
    if i == 449 {
        assert(ZOBRIST_KEYS[449] == 0xC9D1A06D489F92E0u64);
        assert(ZOBRIST_KEYS[448] == 0xB2CAC0CB455FFA75u64);
    } else if i == 450 {
        assert(ZOBRIST_KEYS[450] == 0xB289DB96E1B172AFu64);
        assert(ZOBRIST_KEYS[449] == 0xC9D1A06D489F92E0u64);
    } else if i == 451 {
        assert(ZOBRIST_KEYS[451] == 0xB2E1EE125F587B12u64);
        assert(ZOBRIST_KEYS[450] == 0xB289DB96E1B172AFu64);
    } else if i == 452 {
        assert(ZOBRIST_KEYS[452] == 0xD863FF39987D1179u64);
        assert(ZOBRIST_KEYS[451] == 0xB2E1EE125F587B12u64);
    } else if i == 453 {
        assert(ZOBRIST_KEYS[453] == 0x80EE3384E87B9A94u64);
        assert(ZOBRIST_KEYS[452] == 0xD863FF39987D1179u64);
    } else if i == 454 {
        assert(ZOBRIST_KEYS[454] == 0xD0B6B70A0EF51953u64);
        assert(ZOBRIST_KEYS[453] == 0x80EE3384E87B9A94u64);
    } else if i == 455 {
        assert(ZOBRIST_KEYS[455] == 0xB6B8AD72915C21E6u64);
        assert(ZOBRIST_KEYS[454] == 0xD0B6B70A0EF51953u64);
    } else if i == 456 {
        assert(ZOBRIST_KEYS[456] == 0xEEA4F0DD3C4890BDu64);
        assert(ZOBRIST_KEYS[455] == 0xB6B8AD72915C21E6u64);
    } else if i == 457 {
        assert(ZOBRIST_KEYS[457] == 0x3FADC9B7E9F7B588u64);
        assert(ZOBRIST_KEYS[456] == 0xEEA4F0DD3C4890BDu64);
    } else if i == 458 {
        assert(ZOBRIST_KEYS[458] == 0xE7BD6DDE0328E237u64);
        assert(ZOBRIST_KEYS[457] == 0x3FADC9B7E9F7B588u64);
    } else if i == 459 {
        assert(ZOBRIST_KEYS[459] == 0xA62E18B5CBD38DFAu64);
        assert(ZOBRIST_KEYS[458] == 0xE7BD6DDE0328E237u64);
    } else if i == 460 {
        assert(ZOBRIST_KEYS[460] == 0xD650B0CB99887C41u64);
        assert(ZOBRIST_KEYS[459] == 0xA62E18B5CBD38DFAu64);
    } else if i == 461 {
        assert(ZOBRIST_KEYS[461] == 0xDBFB3D3447DE97BCu64);
        assert(ZOBRIST_KEYS[460] == 0xD650B0CB99887C41u64);
    } else if i == 462 {
        assert(ZOBRIST_KEYS[462] == 0xF48BF2FD273A715Bu64);
        assert(ZOBRIST_KEYS[461] == 0xDBFB3D3447DE97BCu64);
    } else if i == 463 {
        assert(ZOBRIST_KEYS[463] == 0xD243A01ED8E0934Eu64);
        assert(ZOBRIST_KEYS[462] == 0xF48BF2FD273A715Bu64);
    } else if i == 464 {
        assert(ZOBRIST_KEYS[464] == 0x883D11A9645B1805u64);
        assert(ZOBRIST_KEYS[463] == 0xD243A01ED8E0934Eu64);
    } else if i == 465 {
        assert(ZOBRIST_KEYS[465] == 0xAC641016433E3530u64);
        assert(ZOBRIST_KEYS[464] == 0x883D11A9645B1805u64);
    } else if i == 466 {
        assert(ZOBRIST_KEYS[466] == 0x6F540F33DAA9AABFu64);
        assert(ZOBRIST_KEYS[465] == 0xAC641016433E3530u64);
    } else if i == 467 {
        assert(ZOBRIST_KEYS[467] == 0x6C6F941AA81A45E2u64);
        assert(ZOBRIST_KEYS[466] == 0x6F540F33DAA9AABFu64);
    } else if i == 468 {
        assert(ZOBRIST_KEYS[468] == 0xFF431257513AE809u64);
        assert(ZOBRIST_KEYS[467] == 0x6C6F941AA81A45E2u64);
    } else if i == 469 {
        assert(ZOBRIST_KEYS[469] == 0xC13527E5311BC1E4u64);
        assert(ZOBRIST_KEYS[468] == 0xFF431257513AE809u64);
    } else if i == 470 {
        assert(ZOBRIST_KEYS[470] == 0x7BF469F0E82CB263u64);
        assert(ZOBRIST_KEYS[469] == 0xC13527E5311BC1E4u64);
    } else if i == 471 {
        assert(ZOBRIST_KEYS[471] == 0x2FE3BC662B60F9B6u64);
        assert(ZOBRIST_KEYS[470] == 0x7BF469F0E82CB263u64);
    } else if i == 472 {
        assert(ZOBRIST_KEYS[472] == 0x167FAF8B1242B04Du64);
        assert(ZOBRIST_KEYS[471] == 0x2FE3BC662B60F9B6u64);
    } else if i == 473 {
        assert(ZOBRIST_KEYS[473] == 0xDC0A23B0BB67B1D8u64);
        assert(ZOBRIST_KEYS[472] == 0x167FAF8B1242B04Du64);
    } else if i == 474 {
        assert(ZOBRIST_KEYS[474] == 0x53166DA6FC93EC47u64);
        assert(ZOBRIST_KEYS[473] == 0xDC0A23B0BB67B1D8u64);
    } else if i == 475 {
        assert(ZOBRIST_KEYS[475] == 0xC234B9DF58F242CAu64);
        assert(ZOBRIST_KEYS[474] == 0x53166DA6FC93EC47u64);
    } else if i == 476 {
        assert(ZOBRIST_KEYS[476] == 0xF90EEB38A0B174D1u64);
        assert(ZOBRIST_KEYS[475] == 0xC234B9DF58F242CAu64);
    } else if i == 477 {
        assert(ZOBRIST_KEYS[477] == 0x2AA9DEDF4931B90Cu64);
        assert(ZOBRIST_KEYS[476] == 0xF90EEB38A0B174D1u64);
    } else if i == 478 {
        assert(ZOBRIST_KEYS[478] == 0xCA0BC20AC3EDFC6Bu64);
        assert(ZOBRIST_KEYS[477] == 0x2AA9DEDF4931B90Cu64);
    } else if i == 479 {
        assert(ZOBRIST_KEYS[479] == 0x7B0EF9D926BCF51Eu64);
        assert(ZOBRIST_KEYS[478] == 0xCA0BC20AC3EDFC6Bu64);
    } else if i == 480 {
        assert(ZOBRIST_KEYS[480] == 0xCDD373E816AE7995u64);
        assert(ZOBRIST_KEYS[479] == 0x7B0EF9D926BCF51Eu64);
    }
}

/// Keys 481 to 512 each follow the one before by the generator step.
#[verifier::rlimit(100)]
proof fn lemma_key_steps_481(i: int)
    requires
        481 <= i < 513,
    ensures
        ZOBRIST_KEYS[i] == lcg_spec(ZOBRIST_KEYS[i - 1]),
{
    if i == 481 {
        assert(ZOBRIST_KEYS[481] == 0x7E346161821CCB80u64);
        assert(ZOBRIST_KEYS[480] == 0xCDD373E816AE7995u64);
    } else if i == 482 {
        assert(ZOBRIST_KEYS[482] == 0x947105DB90EBC6CFu64);
        assert(ZOBRIST_KEYS[481] == 0x7E346161821CCB80u64);
    } else if i == 483 {
        assert(ZOBRIST_KEYS[483] == 0x180B069F92F524B2u64);
        assert(ZOBRIST_KEYS[482] == 0x947105DB90EBC6CFu64);
    } else if i == 484 {
        assert(ZOBRIST_KEYS[484] == 0x49233A509D4D4299u64);
        assert(ZOBRIST_KEYS[483] == 0x180B069F92F524B2u64);
    } else if i == 485 {
        assert(ZOBRIST_KEYS[485] == 0x3D3AC05621131D34u64);
        assert(ZOBRIST_KEYS[484] == 0x49233A509D4D4299u64);
    } else if i == 486 {
        assert(ZOBRIST_KEYS[486] == 0xA65CA3FAB2846F73u64);
        assert(ZOBRIST_KEYS[485] == 0x3D3AC05621131D34u64);
    } else if i == 487 {
        assert(ZOBRIST_KEYS[487] == 0x8C7518820DE82586u64);
        assert(ZOBRIST_KEYS[486] == 0xA65CA3FAB2846F73u64);
    } else if i == 488 {
        assert(ZOBRIST_KEYS[488] == 0x608EA31132D193DDu64);
        assert(ZOBRIST_KEYS[487] == 0x8C7518820DE82586u64);
    } else if i == 489 {
        assert(ZOBRIST_KEYS[489] == 0x44C91B748A3A2228u64);
        assert(ZOBRIST_KEYS[488] == 0x608EA31132D193DDu64);
    } else if i == 490 {
        assert(ZOBRIST_KEYS[490] == 0xC749F68FDBD95A57u64);
        assert(ZOBRIST_KEYS[489] == 0x44C91B748A3A2228u64);
    } else if i == 491 {
        assert(ZOBRIST_KEYS[491] == 0x512D7A77D9108B9Au64);
        assert(ZOBRIST_KEYS[490] == 0xC749F68FDBD95A57u64);
    } else if i == 492 {
        assert(ZOBRIST_KEYS[492] == 0xCDA909644D337161u64);
        assert(ZOBRIST_KEYS[491] == 0x512D7A77D9108B9Au64);
    } else if i == 493 {
        assert(ZOBRIST_KEYS[493] == 0x267D7B13D8268E5Cu64);
        assert(ZOBRIST_KEYS[492] == 0xCDA909644D337161u64);
    } else if i == 494 {
        assert(ZOBRIST_KEYS[494] == 0x086DED17425A2B7Bu64);
        assert(ZOBRIST_KEYS[493] == 0x267D7B13D8268E5Cu64);
    } else if i == 495 {
        assert(ZOBRIST_KEYS[495] == 0xA368F6832F6A2AEEu64);
        assert(ZOBRIST_KEYS[494] == 0x086DED17425A2B7Bu64);
    } else if i == 496 {
        assert(ZOBRIST_KEYS[496] == 0x381466739CE31F25u64);
        assert(ZOBRIST_KEYS[495] == 0xA368F6832F6A2AEEu64);
    } else if i == 497 {
        assert(ZOBRIST_KEYS[497] == 0xA29D5397545055D0u64);
        assert(ZOBRIST_KEYS[496] == 0x381466739CE31F25u64);
    } else if i == 498 {
        assert(ZOBRIST_KEYS[498] == 0x54FA81B85628C6DFu64);
        assert(ZOBRIST_KEYS[497] == 0xA29D5397545055D0u64);
    } else if i == 499 {
        assert(ZOBRIST_KEYS[499] == 0x1B8D7D9D4B061782u64);
        assert(ZOBRIST_KEYS[498] == 0x54FA81B85628C6DFu64);
    } else if i == 500 {
        assert(ZOBRIST_KEYS[500] == 0x0AA41BBD73CD2129u64);
        assert(ZOBRIST_KEYS[499] == 0x1B8D7D9D4B061782u64);
    } else if i == 501 {
        assert(ZOBRIST_KEYS[501] == 0x34E98CB08EC6AC84u64);
        assert(ZOBRIST_KEYS[500] == 0x0AA41BBD73CD2129u64);
    } else if i == 502 {
        assert(ZOBRIST_KEYS[502] == 0xF623056A38BD5083u64);
        assert(ZOBRIST_KEYS[501] == 0x34E98CB08EC6AC84u64);
    } else if i == 503 {
        assert(ZOBRIST_KEYS[503] == 0x52FF5E6E9BDEA556u64);
        assert(ZOBRIST_KEYS[502] == 0xF623056A38BD5083u64);
    } else if i == 504 {
        assert(ZOBRIST_KEYS[504] == 0xA357CE0D949E3B6Du64);
        assert(ZOBRIST_KEYS[503] == 0x52FF5E6E9BDEA556u64);
    } else if i == 505 {
        assert(ZOBRIST_KEYS[505] == 0x85A5408289240678u64);
        assert(ZOBRIST_KEYS[504] == 0xA357CE0D949E3B6Du64);
    } else if i == 506 {
        assert(ZOBRIST_KEYS[506] == 0x973A9B7555CA2C67u64);
        assert(ZOBRIST_KEYS[505] == 0x85A5408289240678u64);
    } else if i == 507 {
        assert(ZOBRIST_KEYS[507] == 0x48A7F2A3C3EB686Au64);
        assert(ZOBRIST_KEYS[506] == 0x973A9B7555CA2C67u64);
    } else if i == 508 {
        assert(ZOBRIST_KEYS[508] == 0x4BD5AE1F6E4771F1u64);
        assert(ZOBRIST_KEYS[507] == 0x48A7F2A3C3EB686Au64);
    } else if i == 509 {
        assert(ZOBRIST_KEYS[509] == 0x7768CF80A8C217ACu64);
        assert(ZOBRIST_KEYS[508] == 0x4BD5AE1F6E4771F1u64);
    } else if i == 510 {
        assert(ZOBRIST_KEYS[510] == 0x4E78BA0FC25FFE8Bu64);
        assert(ZOBRIST_KEYS[509] == 0x7768CF80A8C217ACu64);
    } else if i == 511 {
        assert(ZOBRIST_KEYS[511] == 0xB7E3DD912C7534BEu64);
        assert(ZOBRIST_KEYS[510] == 0x4E78BA0FC25FFE8Bu64);
    } else if i == 512 {
        assert(ZOBRIST_KEYS[512] == 0x07AD7C5807C208B5u64);
        assert(ZOBRIST_KEYS[511] == 0xB7E3DD912C7534BEu64);
    }
}

/// Keys 513 to 544 each follow the one before by the generator step.
#[verifier::rlimit(100)]
proof fn lemma_key_steps_513(i: int)
    requires
        513 <= i < 545,
    ensures
        ZOBRIST_KEYS[i] == lcg_spec(ZOBRIST_KEYS[i - 1]),
{
    if i == 513 {
        assert(ZOBRIST_KEYS[513] == 0x466B2D27642DD420u64);
        assert(ZOBRIST_KEYS[512] == 0x07AD7C5807C208B5u64);
    } else if i == 514 {
        assert(ZOBRIST_KEYS[514] == 0x024AA9644651AAEFu64);
        assert(ZOBRIST_KEYS[513] == 0x466B2D27642DD420u64);
    } else if i == 515 {
        assert(ZOBRIST_KEYS[515] == 0x5251054C48AA1E52u64);
        assert(ZOBRIST_KEYS[514] == 0x024AA9644651AAEFu64);
    } else if i == 516 {
        assert(ZOBRIST_KEYS[516] == 0x2B9C8A62201383B9u64);
        assert(ZOBRIST_KEYS[515] == 0x5251054C48AA1E52u64);
    } else if i == 517 {
        assert(ZOBRIST_KEYS[517] == 0x96566EA3DFDB6FD4u64);
        assert(ZOBRIST_KEYS[516] == 0x2B9C8A62201383B9u64);
    } else if i == 518 {
        assert(ZOBRIST_KEYS[518] == 0x302D628A33D85593u64);
        assert(ZOBRIST_KEYS[517] == 0x96566EA3DFDB6FD4u64);
    } else if i == 519 {
        assert(ZOBRIST_KEYS[519] == 0x5BD0EAAAD9717926u64);
        assert(ZOBRIST_KEYS[518] == 0x302D628A33D85593u64);
    } else if i == 520 {
        assert(ZOBRIST_KEYS[520] == 0xEF9840174691A6FDu64);
        assert(ZOBRIST_KEYS[519] == 0x5BD0EAAAD9717926u64);
    } else if i == 521 {
        assert(ZOBRIST_KEYS[521] == 0xF8E41A6AEE1A5EC8u64);
        assert(ZOBRIST_KEYS[520] == 0xEF9840174691A6FDu64);
    } else if i == 522 {
        assert(ZOBRIST_KEYS[522] == 0xD666DF0E71776277u64);
        assert(ZOBRIST_KEYS[521] == 0xF8E41A6AEE1A5EC8u64);
    } else if i == 523 {
        assert(ZOBRIST_KEYS[523] == 0xB55711F5C67FD93Au64);
        assert(ZOBRIST_KEYS[522] == 0xD666DF0E71776277u64);
    } else if i == 524 {
        assert(ZOBRIST_KEYS[524] == 0xFC158544EF667681u64);
        assert(ZOBRIST_KEYS[523] == 0xB55711F5C67FD93Au64);
    } else if i == 525 {
        assert(ZOBRIST_KEYS[525] == 0xADE3A5DF264954FCu64);
        assert(ZOBRIST_KEYS[524] == 0xFC158544EF667681u64);
    } else if i == 526 {
        assert(ZOBRIST_KEYS[526] == 0x823285EC5A20759Bu64);
        assert(ZOBRIST_KEYS[525] == 0xADE3A5DF264954FCu64);
    } else if i == 527 {
        assert(ZOBRIST_KEYS[527] == 0x6A80C6CE60AB128Eu64);
        assert(ZOBRIST_KEYS[526] == 0x823285EC5A20759Bu64);
    } else if i == 528 {
        assert(ZOBRIST_KEYS[528] == 0x64C977C4C8543645u64);
        assert(ZOBRIST_KEYS[527] == 0x6A80C6CE60AB128Eu64);
    } else if i == 529 {
        assert(ZOBRIST_KEYS[529] == 0x3D380FB9074A4670u64);
        assert(ZOBRIST_KEYS[528] == 0x64C977C4C8543645u64);
    } else if i == 530 {
        assert(ZOBRIST_KEYS[530] == 0x98297677579772FFu64);
        assert(ZOBRIST_KEYS[529] == 0x3D380FB9074A4670u64);
    } else if i == 531 {
        assert(ZOBRIST_KEYS[531] == 0x9074B70A217E3922u64);
        assert(ZOBRIST_KEYS[530] == 0x98297677579772FFu64);
    } else if i == 532 {
        assert(ZOBRIST_KEYS[532] == 0xDF95194BD1B96A49u64);
        assert(ZOBRIST_KEYS[531] == 0x9074B70A217E3922u64);
    } else if i == 533 {
        assert(ZOBRIST_KEYS[533] == 0xE429EA2B59366724u64);
        assert(ZOBRIST_KEYS[532] == 0xDF95194BD1B96A49u64);
    } else if i == 534 {
        assert(ZOBRIST_KEYS[534] == 0xAF88AAFC5B167EA3u64);
        assert(ZOBRIST_KEYS[533] == 0xE429EA2B59366724u64);
    } else if i == 535 {
        assert(ZOBRIST_KEYS[535] == 0xB9050B623C0DA0F6u64);
        assert(ZOBRIST_KEYS[534] == 0xAF88AAFC5B167EA3u64);
    } else if i == 536 {
        assert(ZOBRIST_KEYS[536] == 0xEE34FA83FFD4D68Du64);
        assert(ZOBRIST_KEYS[535] == 0xB9050B623C0DA0F6u64);
    } else if i == 537 {
        assert(ZOBRIST_KEYS[537] == 0x69E931F942522B18u64);
        assert(ZOBRIST_KEYS[536] == 0xEE34FA83FFD4D68Du64);
    } else if i == 538 {
        assert(ZOBRIST_KEYS[538] == 0x53AE5E0C9831FC87u64);
        assert(ZOBRIST_KEYS[537] == 0x69E931F942522B18u64);
    } else if i == 539 {
        assert(ZOBRIST_KEYS[539] == 0x7908BF01930ADE0Au64);
        assert(ZOBRIST_KEYS[538] == 0x53AE5E0C9831FC87u64);
    } else if i == 540 {
        assert(ZOBRIST_KEYS[540] == 0x3A9735B868497F11u64);
        assert(ZOBRIST_KEYS[539] == 0x7908BF01930ADE0Au64);
    } else if i == 541 {
        assert(ZOBRIST_KEYS[541] == 0xD5F37722C341464Cu64);
        assert(ZOBRIST_KEYS[540] == 0x3A9735B868497F11u64);
    } else if i == 542 {
        assert(ZOBRIST_KEYS[542] == 0x08A47CB125FC90ABu64);
        assert(ZOBRIST_KEYS[541] == 0xD5F37722C341464Cu64);
    } else if i == 543 {
        assert(ZOBRIST_KEYS[543] == 0x5290C97CE818C45Eu64);
        assert(ZOBRIST_KEYS[542] == 0x08A47CB125FC90ABu64);
    } else if i == 544 {
        assert(ZOBRIST_KEYS[544] == 0x9F4A6AD43FE2A7D5u64);
        assert(ZOBRIST_KEYS[543] == 0x5290C97CE818C45Eu64);
    }
}

/// Keys 545 to 576 each follow the one before by the generator step.
#[verifier::rlimit(100)]
proof fn lemma_key_steps_545(i: int)
    requires
        545 <= i < 577,
    ensures
        ZOBRIST_KEYS[i] == lcg_spec(ZOBRIST_KEYS[i - 1]),
{
    if i == 545 {
        assert(ZOBRIST_KEYS[545] == 0xC4CD8BAF8E7AACC0u64);
        assert(ZOBRIST_KEYS[544] == 0x9F4A6AD43FE2A7D5u64);
    } else if i == 546 {
        assert(ZOBRIST_KEYS[546] == 0xB0E4D7796A6B1F0Fu64);
        assert(ZOBRIST_KEYS[545] == 0xC4CD8BAF8E7AACC0u64);
    } else if i == 547 {
        assert(ZOBRIST_KEYS[547] == 0xF29516D6585F67F2u64);
        assert(ZOBRIST_KEYS[546] == 0xB0E4D7796A6B1F0Fu64);
    } else if i == 548 {
        assert(ZOBRIST_KEYS[548] == 0x26F684F12C97D4D9u64);
        assert(ZOBRIST_KEYS[547] == 0xF29516D6585F67F2u64);
    } else if i == 549 {
        assert(ZOBRIST_KEYS[549] == 0xB122C4B76EFC9274u64);
        assert(ZOBRIST_KEYS[548] == 0x26F684F12C97D4D9u64);
    } else if i == 550 {
        assert(ZOBRIST_KEYS[550] == 0xDF1FF2AC73F8CBB3u64);
        assert(ZOBRIST_KEYS[549] == 0xB122C4B76EFC9274u64);
    } else if i == 551 {
        assert(ZOBRIST_KEYS[551] == 0x175978167A601CC6u64);
        assert(ZOBRIST_KEYS[550] == 0xDF1FF2AC73F8CBB3u64);
    } else if i == 552 {
        assert(ZOBRIST_KEYS[552] == 0x6BB44771AFD0CA1Du64);
        assert(ZOBRIST_KEYS[551] == 0x175978167A601CC6u64);
    } else if i == 553 {
        assert(ZOBRIST_KEYS[553] == 0x9B08EC52B2406B68u64);
        assert(ZOBRIST_KEYS[552] == 0x6BB44771AFD0CA1Du64);
    } else if i == 554 {
        assert(ZOBRIST_KEYS[554] == 0x527AED1FA58AFA97u64);
        assert(ZOBRIST_KEYS[553] == 0x9B08EC52B2406B68u64);
    } else if i == 555 {
        assert(ZOBRIST_KEYS[555] == 0xB9E17202B10976DAu64);
        assert(ZOBRIST_KEYS[554] == 0x527AED1FA58AFA97u64);
    } else if i == 556 {
        assert(ZOBRIST_KEYS[556] == 0x6F4161E8ACE98BA1u64);
        assert(ZOBRIST_KEYS[555] == 0xB9E17202B10976DAu64);
    } else if i == 557 {
        assert(ZOBRIST_KEYS[557] == 0xA5EC17DC496EEB9Cu64);
        assert(ZOBRIST_KEYS[556] == 0x6F4161E8ACE98BA1u64);
    } else if i == 558 {
        assert(ZOBRIST_KEYS[558] == 0x74CBBB9358954FBBu64);
        assert(ZOBRIST_KEYS[557] == 0xA5EC17DC496EEB9Cu64);
    } else if i == 559 {
        assert(ZOBRIST_KEYS[559] == 0xFD5AAFC9880B4A2Eu64);
        assert(ZOBRIST_KEYS[558] == 0x74CBBB9358954FBBu64);
    } else if i == 560 {
        assert(ZOBRIST_KEYS[560] == 0xB418C7174FF65D65u64);
        assert(ZOBRIST_KEYS[559] == 0xFD5AAFC9880B4A2Eu64);
    } else if i == 561 {
        assert(ZOBRIST_KEYS[561] == 0xF7BB682295D40710u64);
        assert(ZOBRIST_KEYS[560] == 0xB418C7174FF65D65u64);
    } else if i == 562 {
        assert(ZOBRIST_KEYS[562] == 0xA24C9638597DAF1Fu64);
        assert(ZOBRIST_KEYS[561] == 0xF7BB682295D40710u64);
    } else if i == 563 {
        assert(ZOBRIST_KEYS[563] == 0x5A2F92632D6AAAC2u64);
        assert(ZOBRIST_KEYS[562] == 0xA24C9638597DAF1Fu64);
    } else if i == 564 {
        assert(ZOBRIST_KEYS[564] == 0x8B197056D8C7C369u64);
        assert(ZOBRIST_KEYS[563] == 0x5A2F92632D6AAAC2u64);
    } else if i == 565 {
        assert(ZOBRIST_KEYS[565] == 0xBEB7380B1492F1C4u64);
        assert(ZOBRIST_KEYS[564] == 0x8B197056D8C7C369u64);
    } else if i == 566 {
        assert(ZOBRIST_KEYS[566] == 0xF2DDBD6762403CC3u64);
        assert(ZOBRIST_KEYS[565] == 0xBEB7380B1492F1C4u64);
    } else if i == 567 {
        assert(ZOBRIST_KEYS[567] == 0x7534DC1D5C55EC96u64);
        assert(ZOBRIST_KEYS[566] == 0xF2DDBD6762403CC3u64);
    } else if i == 568 {
        assert(ZOBRIST_KEYS[568] == 0x48128C140E2E81ADu64);
        assert(ZOBRIST_KEYS[567] == 0x7534DC1D5C55EC96u64);
    } else if i == 569 {
        assert(ZOBRIST_KEYS[569] == 0xC02ACD085D9A1FB8u64);
        assert(ZOBRIST_KEYS[568] == 0x48128C140E2E81ADu64);
    } else if i == 570 {
        assert(ZOBRIST_KEYS[570] == 0x8C75DBDDF7535CA7u64);
        assert(ZOBRIST_KEYS[569] == 0xC02ACD085D9A1FB8u64);
    } else if i == 571 {
        assert(ZOBRIST_KEYS[571] == 0xC13B67974D38A3AAu64);
        assert(ZOBRIST_KEYS[570] == 0x8C75DBDDF7535CA7u64);
    } else if i == 572 {
        assert(ZOBRIST_KEYS[572] == 0x81944FD65D7F9C31u64);
        assert(ZOBRIST_KEYS[571] == 0xC13B67974D38A3AAu64);
    } else if i == 573 {
        assert(ZOBRIST_KEYS[573] == 0xDE0752D129D744ECu64);
        assert(ZOBRIST_KEYS[572] == 0x81944FD65D7F9C31u64);
    } else if i == 574 {
        assert(ZOBRIST_KEYS[574] == 0x80C21E424ACBB2CBu64);
        assert(ZOBRIST_KEYS[573] == 0xDE0752D129D744ECu64);
    } else if i == 575 {
        assert(ZOBRIST_KEYS[575] == 0xF4649B937F0FA3FEu64);
        assert(ZOBRIST_KEYS[574] == 0x80C21E424ACBB2CBu64);
    } else if i == 576 {
        assert(ZOBRIST_KEYS[576] == 0xBAE084E4EA5856F5u64);
        assert(ZOBRIST_KEYS[575] == 0xF4649B937F0FA3FEu64);
    }
}

/// Keys 577 to 608 each follow the one before by the generator step.
#[verifier::rlimit(100)]
proof fn lemma_key_steps_577(i: int)
    requires
        577 <= i < 609,
    ensures
        ZOBRIST_KEYS[i] == lcg_spec(ZOBRIST_KEYS[i - 1]),
{
    if i == 577 {
        assert(ZOBRIST_KEYS[577] == 0xBE26D44A54AB5560u64);
        assert(ZOBRIST_KEYS[576] == 0xBAE084E4EA5856F5u64);
    } else if i == 578 {
        assert(ZOBRIST_KEYS[578] == 0x976D538209C0232Fu64);
        assert(ZOBRIST_KEYS[577] == 0xBE26D44A54AB5560u64);
    } else if i == 579 {
        assert(ZOBRIST_KEYS[579] == 0x466D5EBA6DFD0192u64);
        assert(ZOBRIST_KEYS[578] == 0x976D538209C0232Fu64);
    } else if i == 580 {
        assert(ZOBRIST_KEYS[580] == 0x5C912E3812A235F9u64);
        assert(ZOBRIST_KEYS[579] == 0x466D5EBA6DFD0192u64);
    } else if i == 581 {
        assert(ZOBRIST_KEYS[581] == 0x79613DCD0C9E8514u64);
        assert(ZOBRIST_KEYS[580] == 0x5C912E3812A235F9u64);
    } else if i == 582 {
        assert(ZOBRIST_KEYS[582] == 0xC9E5EE1637EDD1D3u64);
        assert(ZOBRIST_KEYS[581] == 0x79613DCD0C9E8514u64);
    } else if i == 583 {
        assert(ZOBRIST_KEYS[583] == 0x3AA480F28B1C1066u64);
        assert(ZOBRIST_KEYS[582] == 0xC9E5EE1637EDD1D3u64);
    } else if i == 584 {
        assert(ZOBRIST_KEYS[584] == 0x8135DF462AD6FD3Du64);
        assert(ZOBRIST_KEYS[583] == 0x3AA480F28B1C1066u64);
    } else if i == 585 {
        assert(ZOBRIST_KEYS[585] == 0xD645F41DA7544808u64);
        assert(ZOBRIST_KEYS[584] == 0x8135DF462AD6FD3Du64);
    } else if i == 586 {
        assert(ZOBRIST_KEYS[586] == 0x9E5BCD907D9C22B7u64);
        assert(ZOBRIST_KEYS[585] == 0xD645F41DA7544808u64);
    } else if i == 587 {
        assert(ZOBRIST_KEYS[587] == 0xC8F6488F0995647Au64);
        assert(ZOBRIST_KEYS[586] == 0x9E5BCD907D9C22B7u64);
    } else if i == 588 {
        assert(ZOBRIST_KEYS[588] == 0x1509119E7684B0C1u64);
        assert(ZOBRIST_KEYS[587] == 0xC8F6488F0995647Au64);
    } else if i == 589 {
        assert(ZOBRIST_KEYS[589] == 0x25A196C6CCBF523Cu64);
        assert(ZOBRIST_KEYS[588] == 0x1509119E7684B0C1u64);
    } else if i == 590 {
        assert(ZOBRIST_KEYS[590] == 0x9EB638548BC0B9DBu64);
        assert(ZOBRIST_KEYS[589] == 0x25A196C6CCBF523Cu64);
    } else if i == 591 {
        assert(ZOBRIST_KEYS[591] == 0x9B02498854F2D1CEu64);
        assert(ZOBRIST_KEYS[590] == 0x9EB638548BC0B9DBu64);
    } else if i == 592 {
        assert(ZOBRIST_KEYS[592] == 0x4C4DCB6DA1119485u64);
        assert(ZOBRIST_KEYS[591] == 0x9B02498854F2D1CEu64);
    } else if i == 593 {
        assert(ZOBRIST_KEYS[593] == 0xCFF8775FED9597B0u64);
        assert(ZOBRIST_KEYS[592] == 0x4C4DCB6DA1119485u64);
    } else if i == 594 {
        assert(ZOBRIST_KEYS[594] == 0xB1D829427A637B3Fu64);
        assert(ZOBRIST_KEYS[593] == 0xCFF8775FED9597B0u64);
    } else if i == 595 {
        assert(ZOBRIST_KEYS[595] == 0x4F67317644B36C62u64);
        assert(ZOBRIST_KEYS[594] == 0xB1D829427A637B3Fu64);
    } else if i == 596 {
        assert(ZOBRIST_KEYS[596] == 0x32C78F333AC02C89u64);
        assert(ZOBRIST_KEYS[595] == 0x4F67317644B36C62u64);
    } else if i == 597 {
        assert(ZOBRIST_KEYS[597] == 0x3CF9B8CD39044C64u64);
        assert(ZOBRIST_KEYS[596] == 0x32C78F333AC02C89u64);
    } else if i == 598 {
        assert(ZOBRIST_KEYS[598] == 0xD52CFA9D45428AE3u64);
        assert(ZOBRIST_KEYS[597] == 0x3CF9B8CD39044C64u64);
    } else if i == 599 {
        assert(ZOBRIST_KEYS[599] == 0xFE40655D611F8836u64);
        assert(ZOBRIST_KEYS[598] == 0xD52CFA9D45428AE3u64);
    } else if i == 600 {
        assert(ZOBRIST_KEYS[600] == 0x3943ED5FFDF33CCDu64);
        assert(ZOBRIST_KEYS[599] == 0xFE40655D611F8836u64);
    } else if i == 601 {
        assert(ZOBRIST_KEYS[601] == 0xAE8DED0285A3E458u64);
        assert(ZOBRIST_KEYS[600] == 0x3943ED5FFDF33CCDu64);
    } else if i == 602 {
        assert(ZOBRIST_KEYS[602] == 0x10FBD8E2CAB64CC7u64);
        assert(ZOBRIST_KEYS[601] == 0xAE8DED0285A3E458u64);
    } else if i == 603 {
        assert(ZOBRIST_KEYS[603] == 0xA74163CDCD5CB94Au64);
        assert(ZOBRIST_KEYS[602] == 0x10FBD8E2CAB64CC7u64);
    } else if i == 604 {
        assert(ZOBRIST_KEYS[604] == 0xA5184788E0B1C951u64);
        assert(ZOBRIST_KEYS[603] == 0xA74163CDCD5CB94Au64);
    } else if i == 605 {
        assert(ZOBRIST_KEYS[605] == 0xE7E91C81E1AC138Cu64);
        assert(ZOBRIST_KEYS[604] == 0xA5184788E0B1C951u64);
    } else if i == 606 {
        assert(ZOBRIST_KEYS[606] == 0xA0E83BD8F0D564EBu64);
        assert(ZOBRIST_KEYS[605] == 0xE7E91C81E1AC138Cu64);
    } else if i == 607 {
        assert(ZOBRIST_KEYS[607] == 0x3F59DF93AAC1D39Eu64);
        assert(ZOBRIST_KEYS[606] == 0xA0E83BD8F0D564EBu64);
    } else if i == 608 {
        assert(ZOBRIST_KEYS[608] == 0xCB22C293366B1615u64);
        assert(ZOBRIST_KEYS[607] == 0x3F59DF93AAC1D39Eu64);
    }
}

/// Keys 609 to 640 each follow the one before by the generator step.
#[verifier::rlimit(100)]
proof fn lemma_key_steps_609(i: int)
    requires
        609 <= i < 641,
    ensures
        ZOBRIST_KEYS[i] == lcg_spec(ZOBRIST_KEYS[i - 1]),
{
    if i == 609 {
        assert(ZOBRIST_KEYS[609] == 0xD20313F1BE67CE00u64);
        assert(ZOBRIST_KEYS[608] == 0xCB22C293366B1615u64);
    } else if i == 610 {
        assert(ZOBRIST_KEYS[610] == 0x7C46C405D4D8B74Fu64);
        assert(ZOBRIST_KEYS[609] == 0xD20313F1BE67CE00u64);
    } else if i == 611 {
        assert(ZOBRIST_KEYS[611] == 0xFB18928E096AEB32u64);
        assert(ZOBRIST_KEYS[610] == 0x7C46C405D4D8B74Fu64);
    } else if i == 612 {
        assert(ZOBRIST_KEYS[612] == 0x0A4BEDFA65FAA719u64);
        assert(ZOBRIST_KEYS[611] == 0xFB18928E096AEB32u64);
    } else if i == 613 {
        assert(ZOBRIST_KEYS[613] == 0xB2AD80FDEAE947B4u64);
        assert(ZOBRIST_KEYS[612] == 0x0A4BEDFA65FAA719u64);
    } else if i == 614 {
        assert(ZOBRIST_KEYS[614] == 0x3857455F28BF67F3u64);
        assert(ZOBRIST_KEYS[613] == 0xB2AD80FDEAE947B4u64);
    } else if i == 615 {
        assert(ZOBRIST_KEYS[615] == 0xEBDE4E6ABA0D5406u64);
        assert(ZOBRIST_KEYS[614] == 0x3857455F28BF67F3u64);
    } else if i == 616 {
        assert(ZOBRIST_KEYS[616] == 0x34ADF24FF7EC405Du64);
        assert(ZOBRIST_KEYS[615] == 0xEBDE4E6ABA0D5406u64);
    } else if i == 617 {
        assert(ZOBRIST_KEYS[617] == 0x7F412381D1FDF4A8u64);
        assert(ZOBRIST_KEYS[616] == 0x34ADF24FF7EC405Du64);
    } else if i == 618 {
        assert(ZOBRIST_KEYS[618] == 0x17F8DF772332DAD7u64);
        assert(ZOBRIST_KEYS[617] == 0x7F412381D1FDF4A8u64);
    } else if i == 619 {
        assert(ZOBRIST_KEYS[619] == 0xFEF7D742950BA21Au64);
        assert(ZOBRIST_KEYS[618] == 0x17F8DF772332DAD7u64);
    } else if i == 620 {
        assert(ZOBRIST_KEYS[620] == 0x6B26D49B00FFE5E1u64);
        assert(ZOBRIST_KEYS[619] == 0xFEF7D742950BA21Au64);
    } else if i == 621 {
        assert(ZOBRIST_KEYS[621] == 0x181C29F9AF6288DCu64);
        assert(ZOBRIST_KEYS[620] == 0x6B26D49B00FFE5E1u64);
    } else if i == 622 {
        assert(ZOBRIST_KEYS[622] == 0x848FCE0BA5AAB3FBu64);
        assert(ZOBRIST_KEYS[621] == 0x181C29F9AF6288DCu64);
    } else if i == 623 {
        assert(ZOBRIST_KEYS[623] == 0x277273A30AC9A96Eu64);
        assert(ZOBRIST_KEYS[622] == 0x848FCE0BA5AAB3FBu64);
    } else if i == 624 {
        assert(ZOBRIST_KEYS[624] == 0x065877842CEDDBA5u64);
        assert(ZOBRIST_KEYS[623] == 0x277273A30AC9A96Eu64);
    } else if i == 625 {
        assert(ZOBRIST_KEYS[625] == 0xB47FB3ABB036F850u64);
        assert(ZOBRIST_KEYS[624] == 0x065877842CEDDBA5u64);
    } else if i == 626 {
        assert(ZOBRIST_KEYS[626] == 0x237E04DE7CD0D75Fu64);
        assert(ZOBRIST_KEYS[625] == 0xB47FB3ABB036F850u64);
    } else if i == 627 {
        assert(ZOBRIST_KEYS[627] == 0x832EC3B711407E02u64);
        assert(ZOBRIST_KEYS[626] == 0x237E04DE7CD0D75Fu64);
    } else if i == 628 {
        assert(ZOBRIST_KEYS[628] == 0xA813F287ED6AA5A9u64);
        assert(ZOBRIST_KEYS[627] == 0x832EC3B711407E02u64);
    } else if i == 629 {
        assert(ZOBRIST_KEYS[629] == 0xEC8E972132B27704u64);
        assert(ZOBRIST_KEYS[628] == 0xA813F287ED6AA5A9u64);
    } else if i == 630 {
        assert(ZOBRIST_KEYS[630] == 0x4281BD63DF256903u64);
        assert(ZOBRIST_KEYS[629] == 0xEC8E972132B27704u64);
    } else if i == 631 {
        assert(ZOBRIST_KEYS[631] == 0x26C59F3AC2D273D6u64);
        assert(ZOBRIST_KEYS[630] == 0x4281BD63DF256903u64);
    } else if i == 632 {
        assert(ZOBRIST_KEYS[632] == 0x19E6D2F8916B07EDu64);
        assert(ZOBRIST_KEYS[631] == 0x26C59F3AC2D273D6u64);
    } else if i == 633 {
        assert(ZOBRIST_KEYS[633] == 0x477593A3991778F8u64);
        assert(ZOBRIST_KEYS[632] == 0x19E6D2F8916B07EDu64);
    } else if i == 634 {
        assert(ZOBRIST_KEYS[634] == 0x467E4E5E8DE2CCE7u64);
        assert(ZOBRIST_KEYS[633] == 0x477593A3991778F8u64);
    } else if i == 635 {
        assert(ZOBRIST_KEYS[635] == 0x298344F2425F1EEAu64);
        assert(ZOBRIST_KEYS[634] == 0x467E4E5E8DE2CCE7u64);
    } else if i == 636 {
        assert(ZOBRIST_KEYS[636] == 0x183B1EAE48A80671u64);
        assert(ZOBRIST_KEYS[635] == 0x298344F2425F1EEAu64);
    } else if i == 637 {
        assert(ZOBRIST_KEYS[637] == 0x111257BF63E7B22Cu64);
        assert(ZOBRIST_KEYS[636] == 0x183B1EAE48A80671u64);
    } else if i == 638 {
        assert(ZOBRIST_KEYS[638] == 0xF74D0B2F3C21A70Bu64);
        assert(ZOBRIST_KEYS[637] == 0x111257BF63E7B22Cu64);
    } else if i == 639 {
        assert(ZOBRIST_KEYS[639] == 0x9510B7BDB897533Eu64);
        assert(ZOBRIST_KEYS[638] == 0xF74D0B2F3C21A70Bu64);
    } else if i == 640 {
        assert(ZOBRIST_KEYS[640] == 0x2BE4FD1B5762E535u64);
        assert(ZOBRIST_KEYS[639] == 0x9510B7BDB897533Eu64);
    }
}

/// Keys 641 to 672 each follow the one before by the generator step.
#[verifier::rlimit(100)]
proof fn lemma_key_steps_641(i: int)
    requires
        641 <= i < 673,
    ensures
        ZOBRIST_KEYS[i] == lcg_spec(ZOBRIST_KEYS[i - 1]),
{
    if i == 641 {
        assert(ZOBRIST_KEYS[641] == 0x304F9093875816A0u64);
        assert(ZOBRIST_KEYS[640] == 0x2BE4FD1B5762E535u64);
    } else if i == 642 {
        assert(ZOBRIST_KEYS[642] == 0xE5737CAF203CDB6Fu64);
        assert(ZOBRIST_KEYS[641] == 0x304F9093875816A0u64);
    } else if i == 643 {
        assert(ZOBRIST_KEYS[643] == 0x85A47A597E9124D2u64);
        assert(ZOBRIST_KEYS[642] == 0xE5737CAF203CDB6Fu64);
    } else if i == 644 {
        assert(ZOBRIST_KEYS[644] == 0x5F58C556FE692839u64);
        assert(ZOBRIST_KEYS[643] == 0x85A47A597E9124D2u64);
    } else if i == 645 {
        assert(ZOBRIST_KEYS[645] == 0xD48B052A3004DA54u64);
        assert(ZOBRIST_KEYS[644] == 0x5F58C556FE692839u64);
    } else if i == 646 {
        assert(ZOBRIST_KEYS[646] == 0xF55B2623D3758E13u64);
        assert(ZOBRIST_KEYS[645] == 0xD48B052A3004DA54u64);
    } else if i == 647 {
        assert(ZOBRIST_KEYS[647] == 0xF5AF04A2C99BE7A6u64);
        assert(ZOBRIST_KEYS[646] == 0xF55B2623D3758E13u64);
    } else if i == 648 {
        assert(ZOBRIST_KEYS[648] == 0x82679ED1DB58937Du64);
        assert(ZOBRIST_KEYS[647] == 0xF5AF04A2C99BE7A6u64);
    } else if i == 649 {
        assert(ZOBRIST_KEYS[649] == 0xC2FB89836AE57148u64);
        assert(ZOBRIST_KEYS[648] == 0x82679ED1DB58937Du64);
    } else if i == 650 {
        assert(ZOBRIST_KEYS[650] == 0x42C3B874E3D722F7u64);
        assert(ZOBRIST_KEYS[649] == 0xC2FB89836AE57148u64);
    } else if i == 651 {
        assert(ZOBRIST_KEYS[651] == 0x0AE6F1166C542FBAu64);
        assert(ZOBRIST_KEYS[650] == 0x42C3B874E3D722F7u64);
    } else if i == 652 {
        assert(ZOBRIST_KEYS[652] == 0xDC91B30AC5232B01u64);
        assert(ZOBRIST_KEYS[651] == 0x0AE6F1166C542FBAu64);
    } else if i == 653 {
        assert(ZOBRIST_KEYS[653] == 0xA8BBFD9964808F7Cu64);
        assert(ZOBRIST_KEYS[652] == 0xDC91B30AC5232B01u64);
    } else if i == 654 {
        assert(ZOBRIST_KEYS[654] == 0x5D953A89BC5B3E1Bu64);
        assert(ZOBRIST_KEYS[653] == 0xA8BBFD9964808F7Cu64);
    } else if i == 655 {
        assert(ZOBRIST_KEYS[655] == 0x8727787080F7D10Eu64);
        assert(ZOBRIST_KEYS[654] == 0x5D953A89BC5B3E1Bu64);
    } else if i == 656 {
        assert(ZOBRIST_KEYS[656] == 0xBEB9310368D332C5u64);
        assert(ZOBRIST_KEYS[655] == 0x8727787080F7D10Eu64);
    } else if i == 657 {
        assert(ZOBRIST_KEYS[657] == 0x85D730B9336028F0u64);
        assert(ZOBRIST_KEYS[656] == 0xBEB9310368D332C5u64);
    } else if i == 658 {
        assert(ZOBRIST_KEYS[658] == 0xD5EC51D8C74DC37Fu64);
        assert(ZOBRIST_KEYS[657] == 0x85D730B9336028F0u64);
    } else if i == 659 {
        assert(ZOBRIST_KEYS[659] == 0x93B0E91910F9DFA2u64);
        assert(ZOBRIST_KEYS[658] == 0xD5EC51D8C74DC37Fu64);
    } else if i == 660 {
        assert(ZOBRIST_KEYS[660] == 0x81B7ABA02A8F2EC9u64);
        assert(ZOBRIST_KEYS[659] == 0x93B0E91910F9DFA2u64);
    } else if i == 661 {
        assert(ZOBRIST_KEYS[661] == 0x49AA305261C571A4u64);
        assert(ZOBRIST_KEYS[660] == 0x81B7ABA02A8F2EC9u64);
    } else if i == 662 {
        assert(ZOBRIST_KEYS[662] == 0xBECBA7F6EEF0D723u64);
        assert(ZOBRIST_KEYS[661] == 0x49AA305261C571A4u64);
    } else if i == 663 {
        assert(ZOBRIST_KEYS[663] == 0x5F4441A30DD6AF76u64);
        assert(ZOBRIST_KEYS[662] == 0xBECBA7F6EEF0D723u64);
    } else if i == 664 {
        assert(ZOBRIST_KEYS[664] == 0x6DE702CF0EDDE30Du64);
        assert(ZOBRIST_KEYS[663] == 0x5F4441A30DD6AF76u64);
    } else if i == 665 {
        assert(ZOBRIST_KEYS[665] == 0x8379861AAA9CDD98u64);
        assert(ZOBRIST_KEYS[664] == 0x6DE702CF0EDDE30Du64);
    } else if i == 666 {
        assert(ZOBRIST_KEYS[666] == 0x4FF4FBA0E060DD07u64);
        assert(ZOBRIST_KEYS[665] == 0x8379861AAA9CDD98u64);
    } else if i == 667 {
        assert(ZOBRIST_KEYS[667] == 0xFD1266502F27D48Au64);
        assert(ZOBRIST_KEYS[666] == 0x4FF4FBA0E060DD07u64);
    } else if i == 668 {
        assert(ZOBRIST_KEYS[668] == 0xFBEC6885B02A5391u64);
        assert(ZOBRIST_KEYS[667] == 0xFD1266502F27D48Au64);
    } else if i == 669 {
        assert(ZOBRIST_KEYS[669] == 0xC2822B529DB220CCu64);
        assert(ZOBRIST_KEYS[668] == 0xFBEC6885B02A5391u64);
    } else if i == 670 {
        assert(ZOBRIST_KEYS[670] == 0x9669F385B4B8792Bu64);
        assert(ZOBRIST_KEYS[669] == 0xC2822B529DB220CCu64);
    } else if i == 671 {
        assert(ZOBRIST_KEYS[671] == 0x3972DA8D89F822DEu64);
        assert(ZOBRIST_KEYS[670] == 0x9669F385B4B8792Bu64);
    } else if i == 672 {
        assert(ZOBRIST_KEYS[672] == 0x7B10CE9E8487C455u64);
        assert(ZOBRIST_KEYS[671] == 0x3972DA8D89F822DEu64);
    }
}

/// Keys 673 to 704 each follow the one before by the generator step.
#[verifier::rlimit(100)]
proof fn lemma_key_steps_673(i: int)
    requires
        673 <= i < 705,
    ensures
        ZOBRIST_KEYS[i] == lcg_spec(ZOBRIST_KEYS[i - 1]),
{
    if i == 673 {
        assert(ZOBRIST_KEYS[673] == 0x67F9695B1F242F40u64);
        assert(ZOBRIST_KEYS[672] == 0x7B10CE9E8487C455u64);
    } else if i == 674 {
        assert(ZOBRIST_KEYS[674] == 0x5F0E614CE4748F8Fu64);
        assert(ZOBRIST_KEYS[673] == 0x67F9695B1F242F40u64);
    } else if i == 675 {
        assert(ZOBRIST_KEYS[675] == 0x36F5D5F1F557AE72u64);
        assert(ZOBRIST_KEYS[674] == 0x5F0E614CE4748F8Fu64);
    } else if i == 676 {
        assert(ZOBRIST_KEYS[676] == 0x21C94599F7B5B959u64);
        assert(ZOBRIST_KEYS[675] == 0x36F5D5F1F557AE72u64);
    } else if i == 677 {
        assert(ZOBRIST_KEYS[677] == 0x12D8A1E2F6193CF4u64);
        assert(ZOBRIST_KEYS[676] == 0x21C94599F7B5B959u64);
    } else if i == 678 {
        assert(ZOBRIST_KEYS[678] == 0xF04E8A27A9184433u64);
        assert(ZOBRIST_KEYS[677] == 0x12D8A1E2F6193CF4u64);
    } else if i == 679 {
        assert(ZOBRIST_KEYS[679] == 0x6E0DA9B0902FCB46u64);
        assert(ZOBRIST_KEYS[678] == 0xF04E8A27A9184433u64);
    } else if i == 680 {
        assert(ZOBRIST_KEYS[680] == 0xA97876881D63F69Du64);
        assert(ZOBRIST_KEYS[679] == 0x6E0DA9B0902FCB46u64);
    } else if i == 681 {
        assert(ZOBRIST_KEYS[681] == 0x783F9DFEDEB2BDE8u64);
        assert(ZOBRIST_KEYS[680] == 0xA97876881D63F69Du64);
    } else if i == 682 {
        assert(ZOBRIST_KEYS[682] == 0xBEDEE1F83110FB17u64);
        assert(ZOBRIST_KEYS[681] == 0x783F9DFEDEB2BDE8u64);
    } else if i == 683 {
        assert(ZOBRIST_KEYS[683] == 0x90E7FCEEFC570D5Au64);
        assert(ZOBRIST_KEYS[682] == 0xBEDEE1F83110FB17u64);
    } else if i == 684 {
        assert(ZOBRIST_KEYS[684] == 0x4ACB5823FFB68021u64);
        assert(ZOBRIST_KEYS[683] == 0x90E7FCEEFC570D5Au64);
    } else if i == 685 {
        assert(ZOBRIST_KEYS[685] == 0xDF00D2BDD341661Cu64);
        assert(ZOBRIST_KEYS[684] == 0x4ACB5823FFB68021u64);
    } else if i == 686 {
        assert(ZOBRIST_KEYS[686] == 0x1997B4F749DA583Bu64);
        assert(ZOBRIST_KEYS[685] == 0xDF00D2BDD341661Cu64);
    } else if i == 687 {
        assert(ZOBRIST_KEYS[687] == 0xDE76854022E548AEu64);
        assert(ZOBRIST_KEYS[686] == 0x1997B4F749DA583Bu64);
    } else if i == 688 {
        assert(ZOBRIST_KEYS[688] == 0x0E47B8B1CE0999E5u64);
        assert(ZOBRIST_KEYS[687] == 0xDE76854022E548AEu64);
    } else if i == 689 {
        assert(ZOBRIST_KEYS[689] == 0x3BBC3E7E80B92990u64);
        assert(ZOBRIST_KEYS[688] == 0x0E47B8B1CE0999E5u64);
    } else if i == 690 {
        assert(ZOBRIST_KEYS[690] == 0xA7AEAC0364623F9Fu64);
        assert(ZOBRIST_KEYS[689] == 0x3BBC3E7E80B92990u64);
    } else if i == 691 {
        assert(ZOBRIST_KEYS[691] == 0x680DB9E995C79142u64);
        assert(ZOBRIST_KEYS[690] == 0xA7AEAC0364623F9Fu64);
    } else if i == 692 {
        assert(ZOBRIST_KEYS[692] == 0xEB7EE7BD6FF5C7E9u64);
        assert(ZOBRIST_KEYS[691] == 0x680DB9E995C79142u64);
    } else if i == 693 {
        assert(ZOBRIST_KEYS[693] == 0xD6418BB21A653C44u64);
        assert(ZOBRIST_KEYS[692] == 0xEB7EE7BD6FF5C7E9u64);
    } else if i == 694 {
        assert(ZOBRIST_KEYS[694] == 0x031837AA17ACD543u64);
        assert(ZOBRIST_KEYS[693] == 0xD6418BB21A653C44u64);
    } else if i == 695 {
        assert(ZOBRIST_KEYS[695] == 0xEEC415D2E2943B16u64);
        assert(ZOBRIST_KEYS[694] == 0x031837AA17ACD543u64);
    } else if i == 696 {
        assert(ZOBRIST_KEYS[696] == 0x00A82CA74093CE2Du64);
        assert(ZOBRIST_KEYS[695] == 0xEEC415D2E2943B16u64);
    } else if i == 697 {
        assert(ZOBRIST_KEYS[697] == 0x32FBE71400DC1238u64);
        assert(ZOBRIST_KEYS[696] == 0x00A82CA74093CE2Du64);
    } else if i == 698 {
        assert(ZOBRIST_KEYS[698] == 0x5C9A6FC785B87D27u64);
        assert(ZOBRIST_KEYS[697] == 0x32FBE71400DC1238u64);
    } else if i == 699 {
        assert(ZOBRIST_KEYS[699] == 0x9D80E24B6A9EDA2Au64);
        assert(ZOBRIST_KEYS[698] == 0x5C9A6FC785B87D27u64);
    } else if i == 700 {
        assert(ZOBRIST_KEYS[700] == 0x6AA34540F600B0B1u64);
        assert(ZOBRIST_KEYS[699] == 0x9D80E24B6A9EDA2Au64);
    } else if i == 701 {
        assert(ZOBRIST_KEYS[701] == 0x107407ECF0335F6Cu64);
        assert(ZOBRIST_KEYS[700] == 0x6AA34540F600B0B1u64);
    } else if i == 702 {
        assert(ZOBRIST_KEYS[702] == 0xFDB72F8546A1DB4Bu64);
        assert(ZOBRIST_KEYS[701] == 0x107407ECF0335F6Cu64);
    } else if i == 703 {
        assert(ZOBRIST_KEYS[703] == 0xA1882574944C427Eu64);
        assert(ZOBRIST_KEYS[702] == 0xFDB72F8546A1DB4Bu64);
    } else if i == 704 {
        assert(ZOBRIST_KEYS[704] == 0x870FA2D4F921B375u64);
        assert(ZOBRIST_KEYS[703] == 0xA1882574944C427Eu64);
    }
}

/// Keys 705 to 736 each follow the one before by the generator step.
#[verifier::rlimit(100)]
proof fn lemma_key_steps_705(i: int)
    requires
        705 <= i < 737,
    ensures
        ZOBRIST_KEYS[i] == lcg_spec(ZOBRIST_KEYS[i - 1]),
{
    if i == 705 {
        assert(ZOBRIST_KEYS[705] == 0x7D74D3FBA97417E0u64);
        assert(ZOBRIST_KEYS[704] == 0x870FA2D4F921B375u64);
    } else if i == 706 {
        assert(ZOBRIST_KEYS[706] == 0x2C8A61D4BE07D3AFu64);
        assert(ZOBRIST_KEYS[705] == 0x7D74D3FBA97417E0u64);
    } else if i == 707 {
        assert(ZOBRIST_KEYS[707] == 0xA7A0275369A68812u64);
        assert(ZOBRIST_KEYS[706] == 0x2C8A61D4BE07D3AFu64);
    } else if i == 708 {
        assert(ZOBRIST_KEYS[708] == 0x2F41C80EB1A85A79u64);
        assert(ZOBRIST_KEYS[707] == 0xA7A0275369A68812u64);
    } else if i == 709 {
        assert(ZOBRIST_KEYS[709] == 0xBB3C8D544B4E6F94u64);
        assert(ZOBRIST_KEYS[708] == 0x2F41C80EB1A85A79u64);
    } else if i == 710 {
        assert(ZOBRIST_KEYS[710] == 0x7D28EF76FEAF8A53u64);
        assert(ZOBRIST_KEYS[709] == 0xBB3C8D544B4E6F94u64);
    } else if i == 711 {
        assert(ZOBRIST_KEYS[711] == 0x77D76195F830FEE6u64);
        assert(ZOBRIST_KEYS[710] == 0x7D28EF76FEAF8A53u64);
    } else if i == 712 {
        assert(ZOBRIST_KEYS[712] == 0x5A990F9A8A5669BDu64);
        assert(ZOBRIST_KEYS[711] == 0x77D76195F830FEE6u64);
    } else if i == 713 {
        assert(ZOBRIST_KEYS[713] == 0x0074CA32CE0DDA88u64);
        assert(ZOBRIST_KEYS[712] == 0x5A990F9A8A5669BDu64);
    } else if i == 714 {
        assert(ZOBRIST_KEYS[714] == 0x2F5B4F7EA0686337u64);
        assert(ZOBRIST_KEYS[713] == 0x0074CA32CE0DDA88u64);
    } else if i == 715 {
        assert(ZOBRIST_KEYS[715] == 0x8D257D3605FC3AFAu64);
        assert(ZOBRIST_KEYS[714] == 0x2F5B4F7EA0686337u64);
    } else if i == 716 {
        assert(ZOBRIST_KEYS[716] == 0x75994E38B181E541u64);
        assert(ZOBRIST_KEYS[715] == 0x8D257D3605FC3AFAu64);
    } else if i == 717 {
        assert(ZOBRIST_KEYS[717] == 0x0D607C9C56CD0CBCu64);
        assert(ZOBRIST_KEYS[716] == 0x75994E38B181E541u64);
    } else if i == 718 {
        assert(ZOBRIST_KEYS[718] == 0x963AC4362C30025Bu64);
        assert(ZOBRIST_KEYS[717] == 0x0D607C9C56CD0CBCu64);
    } else if i == 719 {
        assert(ZOBRIST_KEYS[719] == 0x79D0F793EFFA104Eu64);
        assert(ZOBRIST_KEYS[718] == 0x963AC4362C30025Bu64);
    } else if i == 720 {
        assert(ZOBRIST_KEYS[720] == 0xAC1983A5D9D91105u64);
        assert(ZOBRIST_KEYS[719] == 0x79D0F793EFFA104Eu64);
    } else if i == 721 {
        assert(ZOBRIST_KEYS[721] == 0x22FAE4FE55E9FA30u64);
        assert(ZOBRIST_KEYS[720] == 0xAC1983A5D9D91105u64);
    } else if i == 722 {
        assert(ZOBRIST_KEYS[722] == 0x410A1AB802964BBFu64);
        assert(ZOBRIST_KEYS[721] == 0x22FAE4FE55E9FA30u64);
    } else if i == 723 {
        assert(ZOBRIST_KEYS[723] == 0x07F7F3A9C59192E2u64);
        assert(ZOBRIST_KEYS[722] == 0x410A1AB802964BBFu64);
    } else if i == 724 {
        assert(ZOBRIST_KEYS[724] == 0x590BF8697F667109u64);
        assert(ZOBRIST_KEYS[723] == 0x07F7F3A9C59192E2u64);
    } else if i == 725 {
        assert(ZOBRIST_KEYS[725] == 0x772D7F01A4B9D6E4u64);
        assert(ZOBRIST_KEYS[724] == 0x590BF8697F667109u64);
    } else if i == 726 {
        assert(ZOBRIST_KEYS[726] == 0x7582C18AE0616363u64);
        assert(ZOBRIST_KEYS[725] == 0x772D7F01A4B9D6E4u64);
    } else if i == 727 {
        assert(ZOBRIST_KEYS[727] == 0x38A2BCCFF57316B6u64);
        assert(ZOBRIST_KEYS[726] == 0x7582C18AE0616363u64);
    } else if i == 728 {
        assert(ZOBRIST_KEYS[728] == 0xFCAA538974D4C94Du64);
        assert(ZOBRIST_KEYS[727] == 0x38A2BCCFF57316B6u64);
    } else if i == 729 {
        assert(ZOBRIST_KEYS[729] == 0xEDB94DC3167D16D8u64);
        assert(ZOBRIST_KEYS[728] == 0xFCAA538974D4C94Du64);
    } else if i == 730 {
        assert(ZOBRIST_KEYS[730] == 0xA0800C806571AD47u64);
        assert(ZOBRIST_KEYS[729] == 0xEDB94DC3167D16D8u64);
    } else if i == 731 {
        assert(ZOBRIST_KEYS[731] == 0x9F2E4C7A1FAC2FCAu64);
        assert(ZOBRIST_KEYS[730] == 0xA0800C806571AD47u64);
    } else if i == 732 {
        assert(ZOBRIST_KEYS[732] == 0x094FFE96BCF31DD1u64);
        assert(ZOBRIST_KEYS[731] == 0x9F2E4C7A1FAC2FCAu64);
    } else if i == 733 {
        assert(ZOBRIST_KEYS[733] == 0x8A7E9BD230936E0Cu64);
        assert(ZOBRIST_KEYS[732] == 0x094FFE96BCF31DD1u64);
    } else if i == 734 {
        assert(ZOBRIST_KEYS[734] == 0x53EFF82141E5CD6Bu64);
        assert(ZOBRIST_KEYS[733] == 0x8A7E9BD230936E0Cu64);
    } else if i == 735 {
        assert(ZOBRIST_KEYS[735] == 0x90424493E0FBB21Eu64);
        assert(ZOBRIST_KEYS[734] == 0x53EFF82141E5CD6Bu64);
    } else if i == 736 {
        assert(ZOBRIST_KEYS[736] == 0x3E0E78BFF478B295u64);
        assert(ZOBRIST_KEYS[735] == 0x90424493E0FBB21Eu64);
    }
}

/// Keys 737 to 768 each follow the one before by the generator step.
#[verifier::rlimit(100)]
proof fn lemma_key_steps_737(i: int)
    requires
        737 <= i < 769,
    ensures
        ZOBRIST_KEYS[i] == lcg_spec(ZOBRIST_KEYS[i - 1]),
{
    if i == 737 {
        assert(ZOBRIST_KEYS[737] == 0x2B5776F9FDEFD080u64);
        assert(ZOBRIST_KEYS[736] == 0x3E0E78BFF478B295u64);
    } else if i == 738 {
        assert(ZOBRIST_KEYS[738] == 0xBBB10F64ED7EA7CFu64);
        assert(ZOBRIST_KEYS[737] == 0x2B5776F9FDEFD080u64);
    } else if i == 739 {
        assert(ZOBRIST_KEYS[739] == 0x8CBBE1FAAB65B1B2u64);
        assert(ZOBRIST_KEYS[738] == 0xBBB10F64ED7EA7CFu64);
    } else if i == 740 {
        assert(ZOBRIST_KEYS[740] == 0x6F7F66D1D0090B99u64);
        assert(ZOBRIST_KEYS[739] == 0x8CBBE1FAAB65B1B2u64);
    } else if i == 741 {
        assert(ZOBRIST_KEYS[741] == 0x775B472F31CC7234u64);
        assert(ZOBRIST_KEYS[740] == 0x6F7F66D1D0090B99u64);
    } else if i == 742 {
        assert(ZOBRIST_KEYS[742] == 0x68DFB9890D436073u64);
        assert(ZOBRIST_KEYS[741] == 0x775B472F31CC7234u64);
    } else if i == 743 {
        assert(ZOBRIST_KEYS[743] == 0xC6415F3B00078286u64);
        assert(ZOBRIST_KEYS[742] == 0x68DFB9890D436073u64);
    } else if i == 744 {
        assert(ZOBRIST_KEYS[744] == 0xD33A668E7277ECDDu64);
        assert(ZOBRIST_KEYS[743] == 0xC6415F3B00078286u64);
    } else if i == 745 {
        assert(ZOBRIST_KEYS[745] == 0x7FD2AE4A0D9EC728u64);
        assert(ZOBRIST_KEYS[744] == 0xD33A668E7277ECDDu64);
    } else if i == 746 {
        assert(ZOBRIST_KEYS[746] == 0xFC0D0DD6EB655B57u64);
        assert(ZOBRIST_KEYS[745] == 0x7FD2AE4A0D9EC728u64);
    } else if i == 747 {
        assert(ZOBRIST_KEYS[747] == 0x828E9C749E2BB89Au64);
        assert(ZOBRIST_KEYS[746] == 0xFC0D0DD6EB655B57u64);
    } else if i == 748 {
        assert(ZOBRIST_KEYS[748] == 0x47E61BC89F4D5A61u64);
        assert(ZOBRIST_KEYS[747] == 0x828E9C749E2BB89Au64);
    } else if i == 749 {
        assert(ZOBRIST_KEYS[749] == 0x45BEEAB1BE4B835Cu64);
        assert(ZOBRIST_KEYS[748] == 0x47E61BC89F4D5A61u64);
    } else if i == 750 {
        assert(ZOBRIST_KEYS[750] == 0x078ADE43A5643C7Bu64);
        assert(ZOBRIST_KEYS[749] == 0x45BEEAB1BE4B835Cu64);
    } else if i == 751 {
        assert(ZOBRIST_KEYS[751] == 0xC559FF5A7B9E27EEu64);
        assert(ZOBRIST_KEYS[750] == 0x078ADE43A5643C7Bu64);
    } else if i == 752 {
        assert(ZOBRIST_KEYS[752] == 0xD20C05780D899825u64);
        assert(ZOBRIST_KEYS[751] == 0xC559FF5A7B9E27EEu64);
    } else if i == 753 {
        assert(ZOBRIST_KEYS[753] == 0x2BA5BD12249A9AD0u64);
        assert(ZOBRIST_KEYS[752] == 0xD20C05780D899825u64);
    } else if i == 754 {
        assert(ZOBRIST_KEYS[754] == 0xADEC6259F471E7DFu64);
        assert(ZOBRIST_KEYS[753] == 0x2BA5BD12249A9AD0u64);
    } else if i == 755 {
        assert(ZOBRIST_KEYS[755] == 0x6CDFCAE89A3FE482u64);
        assert(ZOBRIST_KEYS[754] == 0xADEC6259F471E7DFu64);
    } else if i == 756 {
        assert(ZOBRIST_KEYS[756] == 0x645B5CC85EA92A29u64);
        assert(ZOBRIST_KEYS[755] == 0x6CDFCAE89A3FE482u64);
    } else if i == 757 {
        assert(ZOBRIST_KEYS[757] == 0xD6B9FFDC3CEB4184u64);
        assert(ZOBRIST_KEYS[756] == 0x645B5CC85EA92A29u64);
    } else if i == 758 {
        assert(ZOBRIST_KEYS[758] == 0x707B5802B4168183u64);
        assert(ZOBRIST_KEYS[757] == 0xD6B9FFDC3CEB4184u64);
    } else if i == 759 {
        assert(ZOBRIST_KEYS[759] == 0x2F3F6AE30EDB4256u64);
        assert(ZOBRIST_KEYS[758] == 0x707B5802B4168183u64);
    } else if i == 760 {
        assert(ZOBRIST_KEYS[760] == 0x9BBD48347DE8D46Du64);
        assert(ZOBRIST_KEYS[759] == 0x2F3F6AE30EDB4256u64);
    } else if i == 761 {
        assert(ZOBRIST_KEYS[761] == 0xB1EDD9EC9A27EB78u64);
        assert(ZOBRIST_KEYS[760] == 0x9BBD48347DE8D46Du64);
    } else if i == 762 {
        assert(ZOBRIST_KEYS[762] == 0x54D581CB8B146D67u64);
        assert(ZOBRIST_KEYS[761] == 0xB1EDD9EC9A27EB78u64);
    } else if i == 763 {
        assert(ZOBRIST_KEYS[763] == 0xD227B0BECD37D56Au64);
        assert(ZOBRIST_KEYS[762] == 0x54D581CB8B146D67u64);
    } else if i == 764 {
        assert(ZOBRIST_KEYS[764] == 0x7A6BC5546BC99AF1u64);
        assert(ZOBRIST_KEYS[763] == 0xD227B0BECD37D56Au64);
    } else if i == 765 {
        assert(ZOBRIST_KEYS[765] == 0xF25D9382A7FA4CACu64);
        assert(ZOBRIST_KEYS[764] == 0x7A6BC5546BC99AF1u64);
    } else if i == 766 {
        assert(ZOBRIST_KEYS[766] == 0x3A0FB8795A8C4F8Bu64);
        assert(ZOBRIST_KEYS[765] == 0xF25D9382A7FA4CACu64);
    } else if i == 767 {
        assert(ZOBRIST_KEYS[767] == 0x1445EF760D6E71BEu64);
        assert(ZOBRIST_KEYS[766] == 0x3A0FB8795A8C4F8Bu64);
    } else if i == 768 {
        assert(ZOBRIST_KEYS[768] == 0xAFBFD55BB9D4C1B5u64);
        assert(ZOBRIST_KEYS[767] == 0x1445EF760D6E71BEu64);
    }
}

/// Keys 769 to 781 each follow the one before by the generator step.
#[verifier::rlimit(100)]
proof fn lemma_key_steps_769(i: int)
    requires
        769 <= i < 782,
    ensures
        ZOBRIST_KEYS[i] == lcg_spec(ZOBRIST_KEYS[i - 1]),
{
    if i == 769 {
        assert(ZOBRIST_KEYS[769] == 0x827060F6A83F5920u64);
        assert(ZOBRIST_KEYS[768] == 0xAFBFD55BB9D4C1B5u64);
    } else if i == 770 {
        assert(ZOBRIST_KEYS[770] == 0x9298CA4657610BEFu64);
        assert(ZOBRIST_KEYS[769] == 0x827060F6A83F5920u64);
    } else if i == 771 {
        assert(ZOBRIST_KEYS[771] == 0x0C297F3F5E7D2B52u64);
        assert(ZOBRIST_KEYS[770] == 0x9298CA4657610BEFu64);
    } else if i == 772 {
        assert(ZOBRIST_KEYS[772] == 0x7B9D36A33A9FCCB9u64);
        assert(ZOBRIST_KEYS[771] == 0x0C297F3F5E7D2B52u64);
    } else if i == 773 {
        assert(ZOBRIST_KEYS[773] == 0x0AEBF0939FBB44D4u64);
        assert(ZOBRIST_KEYS[772] == 0x7B9D36A33A9FCCB9u64);
    } else if i == 774 {
        assert(ZOBRIST_KEYS[774] == 0x1DC8BB61F1DBC693u64);
        assert(ZOBRIST_KEYS[773] == 0x0AEBF0939FBB44D4u64);
    } else if i == 775 {
        assert(ZOBRIST_KEYS[775] == 0x627C0A67BA1B5626u64);
        assert(ZOBRIST_KEYS[774] == 0x1DC8BB61F1DBC693u64);
    } else if i == 776 {
        assert(ZOBRIST_KEYS[776] == 0xDD8C9138AA107FFDu64);
        assert(ZOBRIST_KEYS[775] == 0x627C0A67BA1B5626u64);
    } else if i == 777 {
        assert(ZOBRIST_KEYS[777] == 0x302EA3E5A60D83C8u64);
        assert(ZOBRIST_KEYS[776] == 0xDD8C9138AA107FFDu64);
    } else if i == 778 {
        assert(ZOBRIST_KEYS[778] == 0xC5BFAB62EF8FE377u64);
        assert(ZOBRIST_KEYS[777] == 0x302EA3E5A60D83C8u64);
    } else if i == 779 {
        assert(ZOBRIST_KEYS[779] == 0x2E303EED2DCD863Au64);
        assert(ZOBRIST_KEYS[778] == 0xC5BFAB62EF8FE377u64);
    } else if i == 780 {
        assert(ZOBRIST_KEYS[780] == 0x84C6C19351E0DF81u64);
        assert(ZOBRIST_KEYS[779] == 0x2E303EED2DCD863Au64);
    } else if i == 781 {
        assert(ZOBRIST_KEYS[781] == 0x356A3FEC4CE4C9FCu64);
        assert(ZOBRIST_KEYS[780] == 0x84C6C19351E0DF81u64);
    }
}

/// Each key after the first follows the one before by the generator step.
proof fn lemma_key_step(i: int)
    requires
        1 <= i < 782,
    ensures
        ZOBRIST_KEYS[i] == lcg_spec(ZOBRIST_KEYS[i - 1]),
{
    if i < 33 {
        lemma_key_steps_1(i);
    } else if i < 65 {
        lemma_key_steps_33(i);
    } else if i < 97 {
        lemma_key_steps_65(i);
    } else if i < 129 {
        lemma_key_steps_97(i);
    } else if i < 161 {
        lemma_key_steps_129(i);
    } else if i < 193 {
        lemma_key_steps_161(i);
    } else if i < 225 {
        lemma_key_steps_193(i);
    } else if i < 257 {
        lemma_key_steps_225(i);
    } else if i < 289 {
        lemma_key_steps_257(i);
    } else if i < 321 {
        lemma_key_steps_289(i);
    } else if i < 353 {
        lemma_key_steps_321(i);
    } else if i < 385 {
        lemma_key_steps_353(i);
    } else if i < 417 {
        lemma_key_steps_385(i);
    } else if i < 449 {
        lemma_key_steps_417(i);
    } else if i < 481 {
        lemma_key_steps_449(i);
    } else if i < 513 {
        lemma_key_steps_481(i);
    } else if i < 545 {
        lemma_key_steps_513(i);
    } else if i < 577 {
        lemma_key_steps_545(i);
    } else if i < 609 {
        lemma_key_steps_577(i);
    } else if i < 641 {
        lemma_key_steps_609(i);
    } else if i < 673 {
        lemma_key_steps_641(i);
    } else if i < 705 {
        lemma_key_steps_673(i);
    } else if i < 737 {
        lemma_key_steps_705(i);
    } else if i < 769 {
        lemma_key_steps_737(i);
    } else if i < 782 {
        lemma_key_steps_769(i);
    }
}

/// Key number `n` is term `n + 1` of the key sequence started from the seed:
/// the table holds what the generator produces.
pub proof fn lemma_keys_follow_the_sequence(n: int)
    requires
        0 <= n < 782,
    ensures
        zkey(n) == lcg_iter((n + 1) as nat),
    decreases n,
{
    assert(lcg_iter((n + 1) as nat) == lcg_spec(lcg_iter(n as nat)));
    if n == 0 {
        lemma_first_key();
    } else {
        lemma_keys_follow_the_sequence(n - 1);
        lemma_key_step(n);
        assert(((n - 1) + 1) as nat == n as nat);
    }
}

} // verus!
