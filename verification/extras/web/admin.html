<!doctype html>
<html lang="en" data-bs-theme="light">
<head>
<meta charset="utf-8"><meta name="viewport" content="width=device-width, initial-scale=1">
<title>CalStack — Admin</title>
<link rel="stylesheet" href="/assets/css/bootstrap.min.css">
<link rel="stylesheet" href="/assets/css/bootstrap-icons.css">
<link rel="stylesheet" href="/assets/css/app.css">
<link rel="icon" type="image/png" sizes="16x16" href="/assets/img/favicon-16x16.png">
<link rel="icon" type="image/png" sizes="32x32" href="/assets/img/favicon-32x32.png">
<link rel="apple-touch-icon" href="/assets/img/apple-touch-icon.png">
<script src="/assets/js/theme.js"></script>
</head>
<body class="bg-body-tertiary">
<!-- header -->
<!-- admin menu -->
<div class="container p-3">
  <h1 class="h4 mb-3">Users</h1>
  <form id="user-form" class="card p-3 mb-4">
    <div class="row g-2 align-items-end">
      <div class="col"><label class="form-label" for="u-username">Username</label>
        <input class="form-control" id="u-username" required></div>
      <div class="col"><label class="form-label" for="u-email">Email</label>
        <input class="form-control" id="u-email" type="email" required></div>
      <div class="col"><label class="form-label" for="u-password">Password</label>
        <input class="form-control" id="u-password" type="password" minlength="8" required></div>
      <div class="col-auto form-check mb-2">
        <input class="form-check-input" type="checkbox" id="u-is-admin">
        <label class="form-check-label" for="u-is-admin">Admin</label></div>
      <div class="col-auto"><button class="btn btn-primary" type="submit">Add user</button></div>
    </div>
  </form>
  <table class="table table-sm bg-body">
    <thead><tr><th>Username</th><th>Email</th><th>Admin</th><th>Disabled</th></tr></thead>
    <tbody id="user-rows"></tbody>
  </table>
  <h1 class="h4 mb-3 mt-4">Audit log</h1>
  <table class="table table-sm bg-body">
    <thead><tr><th>When</th><th>Action</th><th>Object</th><th>Summary</th></tr></thead>
    <tbody id="audit-rows"></tbody>
  </table>
</div>
<script src="/assets/js/jquery.min.js"></script>
<script src="/assets/js/jquery-migrate.min.js"></script>
<script src="/assets/js/api.js"></script>
<script src="/assets/js/bootstrap.bundle.min.js"></script>
<script src="/assets/js/admin.js"></script>
<!-- footer -->
</body></html>
