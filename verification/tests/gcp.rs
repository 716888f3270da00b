use base64::{engine::general_purpose, Engine};
use kingfisher::validation::gcp::{
    assemble_token, create_jwt_at, generate_gcp_cache_key, render_claims, GcpError, GcpStep,
    GcpValidator, ServiceAccount, SignFailure, MAX_CONCURRENT_VALIDATIONS,
};

/// An RSA key in PKCS#8 form that nothing but these tests knows.
const TEST_KEY: [u8; 1217] = [
    0x30, 0x82, 0x04, 0xbd, 0x02, 0x01, 0x00, 0x30, 0x0d, 0x06, 0x09, 0x2a, 0x86, 0x48, 0x86, 0xf7,
    0x0d, 0x01, 0x01, 0x01, 0x05, 0x00, 0x04, 0x82, 0x04, 0xa7, 0x30, 0x82, 0x04, 0xa3, 0x02, 0x01,
    0x00, 0x02, 0x82, 0x01, 0x01, 0x00, 0xb0, 0xf6, 0xd0, 0x79, 0x5f, 0xc7, 0xc5, 0x46, 0xc6, 0xe1,
    0x51, 0x80, 0x24, 0x72, 0xd4, 0x77, 0x0f, 0x6c, 0x41, 0xd7, 0xc3, 0xdf, 0xd1, 0x2c, 0x5e, 0xe6,
    0xc5, 0xa3, 0xe1, 0xec, 0x90, 0x0a, 0x26, 0x7d, 0x76, 0xe0, 0x96, 0xd6, 0xa8, 0xc0, 0xa1, 0x5f,
    0x04, 0x2d, 0x1e, 0xfd, 0xd3, 0x01, 0x53, 0x29, 0xd6, 0xb8, 0xb3, 0xdd, 0x02, 0xdc, 0xec, 0x6b,
    0x94, 0xf0, 0xd5, 0xbd, 0x06, 0x3f, 0x77, 0xaa, 0x91, 0xcb, 0x38, 0xef, 0xf0, 0xf8, 0x99, 0xde,
    0x01, 0x00, 0x44, 0xe2, 0xd9, 0xa2, 0x9d, 0xb3, 0x4d, 0xd5, 0xe3, 0x7e, 0x64, 0x37, 0x66, 0x65,
    0x8c, 0x28, 0x8a, 0x72, 0xdd, 0xd6, 0xa8, 0xc3, 0xda, 0xaf, 0x99, 0x89, 0xc1, 0x74, 0xd2, 0xbb,
    0xc6, 0xe5, 0xb3, 0x1b, 0xd9, 0xb3, 0x12, 0xa1, 0x12, 0x50, 0xf7, 0x2e, 0xdf, 0xbd, 0xe3, 0xaf,
    0xf9, 0x17, 0xd8, 0x0a, 0xe6, 0x4c, 0x66, 0xcd, 0xaf, 0xf4, 0xb1, 0xa8, 0x53, 0xd7, 0x3a, 0x7c,
    0x17, 0x28, 0x33, 0x13, 0xf1, 0xe4, 0x0b, 0x32, 0xeb, 0x7d, 0x4e, 0x78, 0xab, 0x36, 0x40, 0xb1,
    0x84, 0x02, 0xbe, 0xa1, 0xb3, 0xec, 0xd2, 0x60, 0x4b, 0xaa, 0xc9, 0xb4, 0xd4, 0x3f, 0x33, 0x15,
    0xf3, 0x87, 0x0a, 0xf8, 0xd4, 0x12, 0xc6, 0x07, 0x77, 0xa9, 0x36, 0xc3, 0x07, 0xe2, 0x6e, 0x2a,
    0xfc, 0x22, 0x4e, 0xbf, 0xf8, 0xb1, 0x82, 0x3b, 0xb0, 0x73, 0x6f, 0x23, 0x5d, 0x3b, 0x72, 0x62,
    0x17, 0x24, 0x82, 0xd1, 0xd1, 0x0d, 0xed, 0x8f, 0xd0, 0xe2, 0x57, 0x0a, 0x3c, 0x75, 0xf6, 0x0a,
    0x5c, 0x48, 0xb4, 0xca, 0xee, 0x4d, 0x73, 0x93, 0x48, 0x3b, 0xe2, 0x88, 0x51, 0x97, 0xe3, 0xdc,
    0x8a, 0x9c, 0xc7, 0xa1, 0xfa, 0x03, 0xcb, 0xf5, 0x37, 0x24, 0xf0, 0x62, 0x75, 0x42, 0x16, 0x1e,
    0x23, 0x99, 0x6c, 0x21, 0x03, 0x51, 0x02, 0x03, 0x01, 0x00, 0x01, 0x02, 0x82, 0x01, 0x00, 0x05,
    0x1f, 0x4f, 0xcf, 0x83, 0x97, 0x3b, 0xbd, 0x9d, 0xba, 0x1d, 0xea, 0xd0, 0xa3, 0x46, 0x45, 0x1f,
    0xfc, 0x29, 0x37, 0xbe, 0xa2, 0xb6, 0xe2, 0x4a, 0xe8, 0xf1, 0x25, 0x9a, 0x3f, 0x87, 0xb7, 0xd3,
    0x7f, 0x64, 0x36, 0x82, 0x07, 0x3a, 0xa1, 0x40, 0xca, 0x88, 0x4b, 0x6a, 0x0f, 0x3c, 0xd1, 0x57,
    0xff, 0xe9, 0x08, 0x35, 0xa4, 0x9b, 0x15, 0x9b, 0xfe, 0x4d, 0x34, 0x5f, 0x6b, 0x76, 0x47, 0xd6,
    0x05, 0xe8, 0xec, 0x71, 0xfc, 0x78, 0x04, 0x2a, 0x28, 0x03, 0xed, 0x67, 0x11, 0x0d, 0xed, 0xa8,
    0x14, 0xed, 0x96, 0xd8, 0x5b, 0xeb, 0x38, 0xb3, 0x4d, 0x13, 0x2e, 0x85, 0x3b, 0x67, 0xf2, 0x73,
    0xb6, 0x1f, 0x99, 0x5f, 0x9f, 0x5e, 0x2b, 0x2c, 0x82, 0x64, 0xf2, 0x77, 0x29, 0xc2, 0x36, 0x6d,
    0xbe, 0x9d, 0xd2, 0x1c, 0x25, 0x8e, 0x32, 0x67, 0xe9, 0xcb, 0x13, 0x06, 0x9c, 0xe2, 0x27, 0x9d,
    0xab, 0x5f, 0xb7, 0x92, 0x55, 0xcd, 0xd1, 0xb6, 0xcf, 0x55, 0x8a, 0x64, 0xda, 0x01, 0x0b, 0xc2,
    0x8c, 0x10, 0xea, 0x63, 0xdf, 0x63, 0xce, 0xaf, 0x80, 0xdb, 0x3d, 0x25, 0x92, 0xbf, 0xa0, 0x2c,
    0x06, 0xc6, 0x8b, 0xa0, 0x0a, 0xc5, 0x0d, 0xeb, 0x70, 0x1a, 0x78, 0x99, 0x2b, 0x7e, 0x68, 0xcf,
    0x5b, 0xf4, 0x61, 0xe6, 0x7e, 0x11, 0xbc, 0x5e, 0xc1, 0xeb, 0x72, 0x9d, 0x64, 0xbf, 0x62, 0x5f,
    0xae, 0x39, 0xab, 0xe7, 0xe2, 0xbb, 0xf4, 0x9a, 0x4b, 0xd5, 0x79, 0x78, 0xab, 0xa8, 0xfe, 0xbe,
    0x3a, 0xc2, 0xc9, 0x71, 0x3d, 0x00, 0xf4, 0x7d, 0x1c, 0x2b, 0x51, 0x41, 0x31, 0x1c, 0xf3, 0xb6,
    0x02, 0x9c, 0xcf, 0x49, 0x35, 0xf6, 0x16, 0x1e, 0xdb, 0x43, 0x28, 0xad, 0x3a, 0x1d, 0x8e, 0x2e,
    0xf6, 0x9c, 0xcb, 0x76, 0x73, 0xd8, 0xdd, 0x8c, 0x95, 0x26, 0xb9, 0x2b, 0x4e, 0x2c, 0x01, 0x02,
    0x81, 0x81, 0x00, 0xd8, 0x28, 0xf0, 0x35, 0x83, 0x98, 0xfa, 0xd6, 0x20, 0xbf, 0x38, 0xed, 0xfe,
    0x96, 0x03, 0x45, 0xed, 0x58, 0x42, 0x9b, 0x61, 0x93, 0x5f, 0xe8, 0x91, 0xaa, 0xfc, 0x54, 0x5e,
    0xd9, 0xd6, 0xa5, 0x6a, 0xc5, 0xe4, 0x21, 0xcf, 0xd1, 0xaa, 0x24, 0x0f, 0xd8, 0x20, 0x1e, 0x4f,
    0xac, 0x66, 0xe9, 0xbf, 0x24, 0x91, 0x1a, 0x73, 0xc0, 0xb5, 0x3f, 0x1a, 0xee, 0xf5, 0xd1, 0x7c,
    0xb5, 0x65, 0x89, 0x48, 0x43, 0x91, 0x38, 0x50, 0x0d, 0x33, 0xba, 0xbf, 0xe3, 0x9c, 0x17, 0xcd,
    0xe1, 0x3a, 0x42, 0x1c, 0x22, 0x32, 0x6b, 0xe4, 0xe3, 0xe2, 0x4b, 0xee, 0x77, 0x79, 0x28, 0xcb,
    0x93, 0x25, 0x6e, 0xd5, 0x46, 0x39, 0x5f, 0xb6, 0x1f, 0x50, 0xd9, 0xf8, 0x81, 0x04, 0x34, 0x12,
    0xc4, 0x94, 0x5d, 0x29, 0x61, 0x61, 0x57, 0x7e, 0x5f, 0x40, 0xd9, 0x4d, 0x22, 0x4b, 0xe3, 0x2e,
    0xe0, 0xc8, 0x91, 0x02, 0x81, 0x81, 0x00, 0xd1, 0x94, 0x80, 0xbb, 0x87, 0x7b, 0x26, 0xde, 0x32,
    0xd4, 0xfa, 0x10, 0x51, 0x51, 0x47, 0x0a, 0xab, 0xd8, 0x4d, 0x98, 0x45, 0x73, 0xd8, 0x2e, 0x55,
    0x58, 0x7a, 0xb9, 0xbc, 0x3c, 0x4c, 0x9f, 0x92, 0xed, 0xdc, 0x7b, 0x89, 0x6b, 0xb8, 0x85, 0x24,
    0x51, 0x67, 0xe4, 0xef, 0x1b, 0x5c, 0x85, 0x3a, 0x9a, 0x9a, 0x32, 0x11, 0x6b, 0x48, 0x75, 0x1b,
    0x0e, 0x62, 0x47, 0x87, 0xc5, 0x1b, 0x09, 0x0b, 0x54, 0xa6, 0x6e, 0xdd, 0xf4, 0x4f, 0xa5, 0xe8,
    0xd1, 0xe9, 0x20, 0xa8, 0xe9, 0x58, 0xcc, 0xbb, 0x7f, 0x90, 0xab, 0x9c, 0xde, 0x65, 0xd6, 0x9f,
    0x2b, 0x30, 0x1f, 0xb5, 0x13, 0xde, 0x59, 0xb2, 0xa2, 0x81, 0x72, 0x3c, 0x2a, 0x7b, 0x21, 0x62,
    0x9a, 0x01, 0x38, 0xbf, 0x48, 0xb6, 0x2c, 0xf9, 0xa5, 0xd0, 0xef, 0x26, 0x43, 0x88, 0x6d, 0xfc,
    0xd8, 0x4f, 0x3b, 0xf8, 0x83, 0xee, 0xc1, 0x02, 0x81, 0x81, 0x00, 0xd2, 0xdc, 0xe4, 0xae, 0x9f,
    0x68, 0x4d, 0x51, 0x32, 0xf2, 0xb7, 0x1b, 0x5b, 0x5d, 0x85, 0x65, 0xe2, 0x89, 0x55, 0xb8, 0x73,
    0xb0, 0x2b, 0x40, 0x19, 0x51, 0x9e, 0x02, 0xc3, 0xe0, 0x67, 0x06, 0x48, 0xa9, 0x30, 0xc9, 0x57,
    0x0c, 0x65, 0x97, 0xf6, 0x28, 0xd3, 0xf4, 0x1d, 0xae, 0xc5, 0x59, 0xc2, 0x4f, 0x6e, 0x89, 0x4a,
    0x5f, 0xb3, 0xaf, 0x12, 0x9c, 0x07, 0x0a, 0x4b, 0x48, 0x3c, 0xfb, 0x75, 0x96, 0x0c, 0x04, 0xcd,
    0xfa, 0x82, 0xfa, 0xeb, 0x13, 0xa3, 0x02, 0x89, 0xa0, 0xeb, 0x8e, 0xf0, 0x18, 0xdf, 0xec, 0xe6,
    0x84, 0xf3, 0x0d, 0x35, 0x5c, 0x30, 0xc1, 0xfe, 0x0c, 0xd5, 0xd8, 0x4f, 0x8e, 0xc8, 0x8b, 0x38,
    0x83, 0x46, 0x00, 0xcb, 0xed, 0x37, 0x67, 0x80, 0xe3, 0x69, 0x03, 0x94, 0x49, 0x5d, 0x86, 0xd7,
    0x4d, 0x1e, 0x5a, 0x9c, 0x67, 0x17, 0x76, 0x50, 0x15, 0x91, 0x31, 0x02, 0x81, 0x80, 0x59, 0xa7,
    0xf1, 0xba, 0x47, 0xa7, 0x03, 0x65, 0xa2, 0xd1, 0x41, 0x78, 0xa1, 0x90, 0xe7, 0x97, 0x45, 0x14,
    0x6f, 0x7d, 0x68, 0x98, 0xba, 0x2e, 0x78, 0x0c, 0x35, 0xd4, 0x27, 0x16, 0x94, 0xa0, 0xdf, 0x36,
    0x2a, 0x50, 0x1e, 0xe5, 0x9a, 0x36, 0x3a, 0xe7, 0x28, 0x4e, 0xe3, 0x8b, 0x0c, 0xf5, 0x61, 0xb0,
    0xa9, 0xae, 0x29, 0x8d, 0x7f, 0x9d, 0xb9, 0x49, 0x59, 0xf9, 0xc7, 0xb7, 0x26, 0x6d, 0xa4, 0x0f,
    0x3e, 0x73, 0xc7, 0x37, 0xb0, 0xab, 0x05, 0x02, 0x67, 0x7c, 0xb5, 0x45, 0xbd, 0xdb, 0x37, 0x8a,
    0xc6, 0xd4, 0xe3, 0x72, 0xb0, 0x96, 0x33, 0xd9, 0x41, 0xe9, 0x0e, 0x89, 0xc5, 0x61, 0x11, 0xee,
    0x3a, 0xfa, 0x27, 0x8a, 0xf4, 0xc9, 0xbf, 0x68, 0xaa, 0x85, 0x20, 0x2f, 0x76, 0xdf, 0x9e, 0x9c,
    0xb4, 0xd8, 0xd9, 0xc1, 0xa2, 0x27, 0x8b, 0x36, 0xee, 0x0e, 0x75, 0xad, 0xdb, 0x01, 0x02, 0x81,
    0x80, 0x05, 0xfc, 0x39, 0xb4, 0x2c, 0x32, 0x9b, 0xbc, 0xef, 0xe4, 0x5e, 0x61, 0x6c, 0x45, 0xe7,
    0xe5, 0x4e, 0xcf, 0x90, 0x7d, 0x6e, 0xa6, 0x9e, 0xcb, 0x8f, 0x63, 0xfc, 0x9e, 0x3b, 0xb4, 0x4b,
    0x68, 0x95, 0x37, 0xef, 0xa8, 0x10, 0x91, 0xaf, 0x9c, 0x5c, 0xc8, 0x2a, 0x88, 0x6e, 0x96, 0xc3,
    0x57, 0x0b, 0x03, 0xbd, 0x71, 0xa4, 0xaa, 0x88, 0x92, 0xb9, 0x53, 0xcd, 0x61, 0x3f, 0xd0, 0xf2,
    0x75, 0x3f, 0x07, 0x32, 0xd5, 0x80, 0xfd, 0x1a, 0x72, 0x01, 0x18, 0xc1, 0x2f, 0x62, 0x16, 0xfd,
    0x8f, 0x72, 0xfb, 0x02, 0x5e, 0x93, 0x46, 0x32, 0x75, 0x6f, 0x2c, 0x96, 0xf2, 0x62, 0x52, 0x88,
    0xb7, 0xf3, 0xb0, 0xad, 0x52, 0x11, 0x6a, 0x9f, 0x4c, 0x65, 0xbd, 0xf2, 0xdb, 0xc2, 0xae, 0x8d,
    0x7c, 0xa9, 0xd9, 0xe5, 0x60, 0x1f, 0xf1, 0x6a, 0x2a, 0x1c, 0x10, 0xc6, 0x6b, 0xc0, 0x42, 0xd7,
    0xc8,
];

/// Its public half.
const TEST_KEY_PUBLIC: [u8; 270] = [
    0x30, 0x82, 0x01, 0x0a, 0x02, 0x82, 0x01, 0x01, 0x00, 0xb0, 0xf6, 0xd0, 0x79, 0x5f, 0xc7, 0xc5,
    0x46, 0xc6, 0xe1, 0x51, 0x80, 0x24, 0x72, 0xd4, 0x77, 0x0f, 0x6c, 0x41, 0xd7, 0xc3, 0xdf, 0xd1,
    0x2c, 0x5e, 0xe6, 0xc5, 0xa3, 0xe1, 0xec, 0x90, 0x0a, 0x26, 0x7d, 0x76, 0xe0, 0x96, 0xd6, 0xa8,
    0xc0, 0xa1, 0x5f, 0x04, 0x2d, 0x1e, 0xfd, 0xd3, 0x01, 0x53, 0x29, 0xd6, 0xb8, 0xb3, 0xdd, 0x02,
    0xdc, 0xec, 0x6b, 0x94, 0xf0, 0xd5, 0xbd, 0x06, 0x3f, 0x77, 0xaa, 0x91, 0xcb, 0x38, 0xef, 0xf0,
    0xf8, 0x99, 0xde, 0x01, 0x00, 0x44, 0xe2, 0xd9, 0xa2, 0x9d, 0xb3, 0x4d, 0xd5, 0xe3, 0x7e, 0x64,
    0x37, 0x66, 0x65, 0x8c, 0x28, 0x8a, 0x72, 0xdd, 0xd6, 0xa8, 0xc3, 0xda, 0xaf, 0x99, 0x89, 0xc1,
    0x74, 0xd2, 0xbb, 0xc6, 0xe5, 0xb3, 0x1b, 0xd9, 0xb3, 0x12, 0xa1, 0x12, 0x50, 0xf7, 0x2e, 0xdf,
    0xbd, 0xe3, 0xaf, 0xf9, 0x17, 0xd8, 0x0a, 0xe6, 0x4c, 0x66, 0xcd, 0xaf, 0xf4, 0xb1, 0xa8, 0x53,
    0xd7, 0x3a, 0x7c, 0x17, 0x28, 0x33, 0x13, 0xf1, 0xe4, 0x0b, 0x32, 0xeb, 0x7d, 0x4e, 0x78, 0xab,
    0x36, 0x40, 0xb1, 0x84, 0x02, 0xbe, 0xa1, 0xb3, 0xec, 0xd2, 0x60, 0x4b, 0xaa, 0xc9, 0xb4, 0xd4,
    0x3f, 0x33, 0x15, 0xf3, 0x87, 0x0a, 0xf8, 0xd4, 0x12, 0xc6, 0x07, 0x77, 0xa9, 0x36, 0xc3, 0x07,
    0xe2, 0x6e, 0x2a, 0xfc, 0x22, 0x4e, 0xbf, 0xf8, 0xb1, 0x82, 0x3b, 0xb0, 0x73, 0x6f, 0x23, 0x5d,
    0x3b, 0x72, 0x62, 0x17, 0x24, 0x82, 0xd1, 0xd1, 0x0d, 0xed, 0x8f, 0xd0, 0xe2, 0x57, 0x0a, 0x3c,
    0x75, 0xf6, 0x0a, 0x5c, 0x48, 0xb4, 0xca, 0xee, 0x4d, 0x73, 0x93, 0x48, 0x3b, 0xe2, 0x88, 0x51,
    0x97, 0xe3, 0xdc, 0x8a, 0x9c, 0xc7, 0xa1, 0xfa, 0x03, 0xcb, 0xf5, 0x37, 0x24, 0xf0, 0x62, 0x75,
    0x42, 0x16, 0x1e, 0x23, 0x99, 0x6c, 0x21, 0x03, 0x51, 0x02, 0x03, 0x01, 0x00, 0x01,
];

fn pem_text() -> String {
    let label = "PRIVATE KEY";
    let body = general_purpose::STANDARD.encode(TEST_KEY);
    let lines: Vec<String> =
        body.as_bytes().chunks(64).map(|c| String::from_utf8(c.to_vec()).unwrap()).collect();
    format!("-----BEGIN {label}-----\n{}\n-----END {label}-----\n", lines.join("\n"))
}

fn account(project_id: &str, private_key: &str) -> ServiceAccount {
    ServiceAccount {
        project_id: project_id.to_string(),
        client_email: "robot@example.com".to_string(),
        private_key: private_key.to_string(),
        token_uri: "https://oauth2.example.com/token".to_string(),
    }
}

fn credentials(private_key: &str) -> Vec<u8> {
    let mut fields = serde_json::Map::new();
    fields.insert("type".into(), "service_account".into());
    fields.insert("project_id".into(), "demo".into());
    fields.insert("client_email".into(), "robot@example.com".into());
    fields.insert("private_key".into(), private_key.into());
    fields.insert("token_uri".into(), "https://oauth2.example.com/token".into());
    serde_json::Value::Object(fields).to_string().into_bytes()
}

fn decoded(part: &str) -> String {
    String::from_utf8(general_purpose::URL_SAFE_NO_PAD.decode(part).unwrap()).unwrap()
}

fn check_signature(token: &str) {
    let parts: Vec<&str> = token.split('.').collect();
    assert_eq!(parts.len(), 3);
    let signed = format!("{}.{}", parts[0], parts[1]);
    let signature = general_purpose::URL_SAFE_NO_PAD.decode(parts[2]).unwrap();
    let key = ring::signature::UnparsedPublicKey::new(
        &ring::signature::RSA_PKCS1_2048_8192_SHA256,
        TEST_KEY_PUBLIC,
    );
    assert!(key.verify(signed.as_bytes(), &signature).is_ok());
    assert!(key.verify(b"something else", &signature).is_err());
}

#[test]
fn cache_key_exact_value() {
    assert_eq!(
        generate_gcp_cache_key("abc"),
        "GCP:a9993e364706816aba3e25717850c26c9cd0d89d"
    );
    assert_eq!(generate_gcp_cache_key("").len(), 44);
    assert_ne!(generate_gcp_cache_key("{}"), generate_gcp_cache_key("{ }"));
}

#[test]
fn validator_limits_how_many_run() {
    assert_eq!(GcpValidator::new().unwrap().permits(), 500);
    assert_eq!(MAX_CONCURRENT_VALIDATIONS, 500);
}

#[test]
fn claims_exact_text() {
    let expect = format!(
        r#"{{
                "iss": "{}",
                "scope": "https://www.googleapis.com/auth/cloud-platform",
                "aud": "{}",
                "exp": {},
                "iat": {}
            }}"#,
        "robot@example.com", "https://oauth2.example.com/token", 3700, 100
    );
    assert_eq!(
        render_claims("robot@example.com", "https://oauth2.example.com/token", 3700, 100),
        expect
    );
    assert!(render_claims("", "", -1, i64::MIN).contains("-9223372036854775808"));
}

#[test]
fn token_is_signed_under_the_key() {
    let token = create_jwt_at("robot@example.com", &pem_text(), "https://t/", 1_700_000_000).unwrap();
    check_signature(&token);
    let parts: Vec<&str> = token.split('.').collect();
    assert_eq!(decoded(parts[0]), r#"{"alg":"RS256","typ":"JWT"}"#);
    let claims: serde_json::Value = serde_json::from_str(&decoded(parts[1])).unwrap();
    assert_eq!(claims["iss"], "robot@example.com");
    assert_eq!(claims["scope"], "https://www.googleapis.com/auth/cloud-platform");
    assert_eq!(claims["aud"], "https://t/");
    assert_eq!(claims["iat"], 1_700_000_000);
    assert_eq!(claims["exp"], 1_700_003_600);
}

#[test]
fn same_moment_gives_the_same_token() {
    let pem = pem_text();
    assert_eq!(
        create_jwt_at("a", &pem, "b", 5).unwrap(),
        create_jwt_at("a", &pem, "b", 5).unwrap()
    );
    assert_ne!(
        create_jwt_at("a", &pem, "b", 5).unwrap(),
        create_jwt_at("a", &pem, "b", 6).unwrap()
    );
}

#[test]
fn token_of_the_present_is_nowish() {
    let validator = GcpValidator::new().unwrap();
    let token = validator.create_jwt("robot@example.com", &pem_text(), "https://t/").unwrap();
    check_signature(&token);
    let claims: serde_json::Value =
        serde_json::from_str(&decoded(token.split('.').nth(1).unwrap())).unwrap();
    let now = time::OffsetDateTime::now_utc().unix_timestamp();
    let iat = claims["iat"].as_i64().unwrap();
    assert!((now - iat).abs() < 5);
    assert_eq!(claims["exp"].as_i64().unwrap(), iat + 3600);
}

#[test]
fn token_needs_a_pem_block() {
    let e = create_jwt_at("a", "no key at all", "b", 0).unwrap_err();
    assert!(matches!(e, GcpError::Pem(_)));
    assert_eq!(e.message(), "Failed to parse PEM: malformedframing");
}

#[test]
fn token_needs_an_rsa_key() {
    let label = "PRIVATE KEY";
    let pem = format!("-----BEGIN {label}-----\nAAAA\n-----END {label}-----\n");
    let e = create_jwt_at("a", &pem, "b", 0).unwrap_err();
    assert!(matches!(e, GcpError::InvalidKey));
    assert_eq!(e.message(), "Invalid RSA private key");
}

#[test]
fn token_is_put_together_from_its_parts() {
    assert_eq!(assemble_token("h.c", Ok(vec![0xfb, 0xff])).unwrap(), "h.c.-_8");
    let e = assemble_token("h.c", Err(SignFailure::SignFailed)).unwrap_err();
    assert!(matches!(e, GcpError::SignFailed));
    assert_eq!(e.message(), "Failed to sign JWT");
    let e = assemble_token("h.c", Err(SignFailure::InvalidKey)).unwrap_err();
    assert!(matches!(e, GcpError::InvalidKey));
}

#[test]
fn credentials_must_be_json() {
    let validator = GcpValidator::new().unwrap();
    let e = validator.validate_gcp_credentials(b"{").unwrap_err();
    assert!(matches!(e, GcpError::Json(_)));
    assert_eq!(e.message(), "EOF while parsing an object at line 1 column 1");
}

#[test]
fn credentials_without_a_field_are_not_live() {
    let validator = GcpValidator::new().unwrap();
    for text in [
        "{}",
        "null",
        "[1]",
        r#"{"project_id": "p", "client_email": "e", "private_key": "k"}"#,
        r#"{"project_id": "", "client_email": "e", "private_key": "k", "token_uri": "t"}"#,
        r#"{"project_id": 7, "client_email": "e", "private_key": "k", "token_uri": "t"}"#,
    ] {
        match validator.validate_gcp_credentials(text.as_bytes()) {
            Ok(GcpStep::Verdict(live, metadata)) => {
                assert!(!live);
                assert!(metadata.is_empty());
            }
            other => panic!("unexpected: {other:?}"),
        }
    }
}

#[test]
fn complete_credentials_are_put_to_the_test() {
    let validator = GcpValidator::new().unwrap();
    match validator.validate_gcp_credentials(&credentials(&pem_text())) {
        Ok(GcpStep::Ask(request)) => {
            assert_eq!(request.token_uri, "https://oauth2.example.com/token");
            assert_eq!(request.form.len(), 2);
            assert_eq!(request.form[0].0, "grant_type");
            assert_eq!(request.form[0].1, "urn:ietf:params:oauth:grant-type:jwt-bearer");
            assert_eq!(request.form[1].0, "assertion");
            check_signature(&request.form[1].1);
            assert_eq!(request.account.project_id, "demo");
            assert_eq!(request.account.client_email, "robot@example.com");
        }
        other => panic!("unexpected: {other:?}"),
    }
}

#[test]
fn complete_credentials_with_a_bad_key_are_an_error() {
    let validator = GcpValidator::new().unwrap();
    let e = validator.validate_gcp_credentials(&credentials("k")).unwrap_err();
    assert!(matches!(e, GcpError::Pem(_)));
}

#[test]
fn bytes_that_are_no_text_are_replaced() {
    let validator = GcpValidator::new().unwrap();
    let mut bytes = br#"{"project_id": ""#.to_vec();
    bytes.push(0xff);
    bytes.extend_from_slice(br#""}"#);
    assert!(matches!(
        validator.validate_gcp_credentials(&bytes),
        Ok(GcpStep::Verdict(false, _))
    ));
    let found = ServiceAccount::from_json("{\"project_id\": \"\u{fffd}\"}").unwrap();
    assert_eq!(found.project_id, "\u{fffd}");
    assert_eq!(found.token_uri, "");
    assert!(!found.is_complete());
}

#[test]
fn account_is_read_from_its_fields() {
    let found = ServiceAccount::from_fields(&vec![
        Some("p".to_string()),
        Some("e".to_string()),
        None,
        Some("t".to_string()),
    ]);
    assert_eq!(found.project_id, "p");
    assert_eq!(found.client_email, "e");
    assert_eq!(found.private_key, "");
    assert_eq!(found.token_uri, "t");
    assert!(!found.is_complete());
    assert!(account("p", "k").is_complete());
}

#[test]
fn step_for_a_moment() {
    match GcpValidator::step_at(account("p", &pem_text()), 1_700_000_000) {
        Ok(GcpStep::Ask(request)) => {
            let token = create_jwt_at(
                "robot@example.com",
                &pem_text(),
                "https://oauth2.example.com/token",
                1_700_000_000,
            );
            assert_eq!(request.form[1].1, token.unwrap());
        }
        other => panic!("unexpected: {other:?}"),
    }
    assert!(matches!(
        GcpValidator::step_at(account("", &pem_text()), 0),
        Ok(GcpStep::Verdict(false, _))
    ));
}

#[test]
fn verdict_follows_the_reply() {
    let validator = GcpValidator::new().unwrap();
    let (live, metadata) = validator.verdict(&account("demo", "k"), true).unwrap();
    assert!(live);
    assert_eq!(
        metadata,
        vec![
            "GCP Credential Type == service_account",
            "GCP Project ID == demo",
            "GCP Client Email == robot@example.com",
        ]
    );
    let e = validator.verdict(&account("demo", "k"), false).unwrap_err();
    assert!(matches!(e, GcpError::Rejected));
    assert_eq!(e.message(), "Failed to validate GCP credentials");
}
